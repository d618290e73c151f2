//! What the v0.1 protocol can express, stated construct by construct, and
//! the proof that a plan translates exactly when it keeps to it.
use vstd::prelude::*;

use crate::arguments::{argument_error, arguments_error, mutation_argument_error, mutation_arguments_error};
use crate::expression::{
    expression_error, lemma_expressions_error_none, lemma_expressions_error_some,
};
use crate::order_by::{order_by_error, order_by_target_error, path_element_error, path_errors};
use crate::plan;
use crate::plan::ResolvedFilterExpression as Expr;
use crate::query::{
    field_error, fields_error, lemma_fields_error_none, lemma_fields_error_some,
    nested_field_error, query_error,
};
use crate::request::{mutation_request_error, query_request_error};
use crate::{first_error, lemma_first_error_none, lemma_first_error_some};

verus! {

/// No comparison against the elements of a scalar array, and no comparison
/// across a relationship that is reached through a nested field.
pub open spec fn expression_in_v01(e: Expr) -> bool
    decreases e,
{
    match e {
        Expr::And { expressions } => forall|i: int|
            0 <= i < expressions@.len() ==> expression_in_v01(#[trigger] expressions@[i]),
        Expr::Or { expressions } => forall|i: int|
            0 <= i < expressions@.len() ==> expression_in_v01(#[trigger] expressions@[i]),
        Expr::Not { expression } => expression_in_v01(*expression),
        Expr::LocalFieldComparison(_) => true,
        Expr::LocalNestedArray { predicate, .. } => expression_in_v01(*predicate),
        Expr::LocalNestedScalarArray { .. } => false,
        Expr::LocalRelationshipComparison { field_path, predicate, .. } => field_path@.len() == 0
            && expression_in_v01(*predicate),
        Expr::RemoteRelationshipComparison { .. } => true,
    }
}

pub open spec fn arguments_in_v01(args: Seq<(String, plan::Argument)>) -> bool {
    forall|i: int|
        0 <= i < args.len() ==> match (#[trigger] args[i]).1 {
            plan::Argument::BooleanExpression { predicate } => expression_in_v01(predicate),
            _ => true,
        }
}

/// No hop of an ordering target passes through a nested field.
pub open spec fn hop_in_v01(hop: plan::RelationshipPathElement) -> bool {
    &&& hop.field_path@.len() == 0
    &&& match hop.filter_predicate {
        Some(e) => expression_in_v01(e),
        None => true,
    }
}

pub open spec fn order_by_target_in_v01(t: plan::OrderByTarget) -> bool {
    match t {
        plan::OrderByTarget::Column { relationship_path, .. } => forall|j: int|
            0 <= j < relationship_path@.len() ==> hop_in_v01(#[trigger] relationship_path@[j]),
    }
}

pub open spec fn order_by_in_v01(elements: Seq<plan::OrderByElement>) -> bool {
    forall|i: int| 0 <= i < elements.len() ==> order_by_target_in_v01(#[trigger] elements[i].target)
}

/// No grouping anywhere, and every expression, argument and ordering in v0.1.
pub open spec fn query_in_v01(q: plan::QueryNode) -> bool
    decreases q,
{
    &&& q.group_by is None
    &&& match q.predicate {
        Some(e) => expression_in_v01(e),
        None => true,
    }
    &&& match q.fields {
        Some(fs) => forall|i: int| 0 <= i < fs@.len() ==> field_in_v01(#[trigger] fs@[i].1),
        None => true,
    }
    &&& match q.order_by {
        Some(es) => order_by_in_v01(es@),
        None => true,
    }
}

pub open spec fn field_in_v01(f: plan::Field) -> bool
    decreases f,
{
    match f {
        plan::Field::Column { fields, arguments, .. } => {
            &&& match fields {
                Some(n) => nested_field_in_v01(n),
                None => true,
            }
            &&& arguments_in_v01(arguments@)
        },
        plan::Field::Relationship { query_node, arguments, .. } => query_in_v01(*query_node)
            && arguments_in_v01(arguments@),
    }
}

pub open spec fn nested_field_in_v01(n: plan::NestedField) -> bool
    decreases n,
{
    match n {
        plan::NestedField::Object(o) => forall|i: int|
            0 <= i < o.fields@.len() ==> field_in_v01(#[trigger] o.fields@[i].1),
        plan::NestedField::Array(a) => nested_field_in_v01(*a.fields),
    }
}

pub open spec fn query_plan_in_v01(p: plan::QueryExecutionPlan) -> bool {
    query_in_v01(p.query_node) && arguments_in_v01(p.arguments@)
}

pub open spec fn mutation_arguments_in_v01(args: Seq<(String, plan::MutationArgument)>) -> bool {
    forall|i: int|
        0 <= i < args.len() ==> match (#[trigger] args[i]).1 {
            plan::MutationArgument::BooleanExpression { predicate } => expression_in_v01(predicate),
            _ => true,
        }
}

pub open spec fn mutation_plan_in_v01(p: plan::MutationExecutionPlan) -> bool {
    &&& mutation_arguments_in_v01(p.procedure_arguments@)
    &&& match p.procedure_fields {
        Some(n) => nested_field_in_v01(n),
        None => true,
    }
}

pub proof fn lemma_expression_in_v01(e: Expr)
    ensures
        expression_error(e) is None <==> expression_in_v01(e),
    decreases e, 1int,
{
    match e {
        Expr::And { expressions } => lemma_expressions_in_v01(expressions),
        Expr::Or { expressions } => lemma_expressions_in_v01(expressions),
        Expr::Not { expression } => lemma_expression_in_v01(*expression),
        Expr::LocalNestedArray { predicate, .. } => lemma_expression_in_v01(*predicate),
        Expr::LocalRelationshipComparison { predicate, .. } => lemma_expression_in_v01(*predicate),
        _ => {},
    }
}

proof fn lemma_expressions_in_v01(expressions: Vec<Expr>)
    ensures
        expressions_error_none_iff(expressions@),
    decreases expressions, 0int,
{
    let es = expressions@;
    assert forall|i: int| 0 <= i < es.len() implies (expression_error(#[trigger] es[i]) is None
        <==> expression_in_v01(es[i])) by {
        lemma_expression_in_v01(es[i]);
    }
    if forall|i: int| 0 <= i < es.len() ==> expression_in_v01(#[trigger] es[i]) {
        lemma_expressions_error_none(es, 0);
    } else {
        let k = choose|k: int| 0 <= k < es.len() && !expression_in_v01(#[trigger] es[k]);
        lemma_expressions_error_some(es, 0, k);
    }
}

pub open spec fn expressions_error_none_iff(es: Seq<Expr>) -> bool {
    crate::expression::expressions_error(es, 0) is None <==> forall|i: int|
        0 <= i < es.len() ==> expression_in_v01(#[trigger] es[i])
}

pub proof fn lemma_arguments_in_v01(args: Seq<(String, plan::Argument)>)
    ensures
        arguments_error(args) is None <==> arguments_in_v01(args),
{
    let errors = args.map_values(|p: (String, plan::Argument)| argument_error(p.1));
    assert forall|i: int| 0 <= i < args.len() implies (#[trigger] errors[i] is None <==> match args[i].1 {
        plan::Argument::BooleanExpression { predicate } => expression_in_v01(predicate),
        _ => true,
    }) by {
        if let plan::Argument::BooleanExpression { predicate } = args[i].1 {
            lemma_expression_in_v01(predicate);
        }
    }
    if arguments_in_v01(args) {
        lemma_first_error_none(errors, 0);
    } else {
        let k = choose|k: int|
            0 <= k < args.len() && !match (#[trigger] args[k]).1 {
                plan::Argument::BooleanExpression { predicate } => expression_in_v01(predicate),
                _ => true,
            };
        lemma_first_error_some(errors, 0, k);
    }
}

pub proof fn lemma_mutation_arguments_in_v01(args: Seq<(String, plan::MutationArgument)>)
    ensures
        mutation_arguments_error(args) is None <==> mutation_arguments_in_v01(args),
{
    let errors = args.map_values(
        |p: (String, plan::MutationArgument)| mutation_argument_error(p.1),
    );
    assert forall|i: int| 0 <= i < args.len() implies (#[trigger] errors[i] is None <==> match args[i].1 {
        plan::MutationArgument::BooleanExpression { predicate } => expression_in_v01(predicate),
        _ => true,
    }) by {
        if let plan::MutationArgument::BooleanExpression { predicate } = args[i].1 {
            lemma_expression_in_v01(predicate);
        }
    }
    if mutation_arguments_in_v01(args) {
        lemma_first_error_none(errors, 0);
    } else {
        let k = choose|k: int|
            0 <= k < args.len() && !match (#[trigger] args[k]).1 {
                plan::MutationArgument::BooleanExpression { predicate } => expression_in_v01(
                    predicate,
                ),
                _ => true,
            };
        lemma_first_error_some(errors, 0, k);
    }
}

pub proof fn lemma_order_by_target_in_v01(t: plan::OrderByTarget)
    ensures
        order_by_target_error(t) is None <==> order_by_target_in_v01(t),
{
    match t {
        plan::OrderByTarget::Column { relationship_path, .. } => {
            let hops = relationship_path@;
            let errors = path_errors(hops);
            assert forall|j: int| 0 <= j < hops.len() implies (#[trigger] errors[j] is None
                <==> hop_in_v01(hops[j])) by {
                assert(errors[j] == path_element_error(hops[j]));
                if let Some(e) = hops[j].filter_predicate {
                    lemma_expression_in_v01(e);
                }
            }
            if order_by_target_in_v01(t) {
                lemma_first_error_none(errors, 0);
            } else {
                let k = choose|k: int| 0 <= k < hops.len() && !hop_in_v01(#[trigger] hops[k]);
                lemma_first_error_some(errors, 0, k);
            }
        },
    }
}

pub proof fn lemma_order_by_in_v01(elements: Seq<plan::OrderByElement>)
    ensures
        order_by_error(elements) is None <==> order_by_in_v01(elements),
{
    let errors = elements.map_values(|e: plan::OrderByElement| order_by_target_error(e.target));
    assert forall|i: int| 0 <= i < elements.len() implies (#[trigger] errors[i] is None
        <==> order_by_target_in_v01(elements[i].target)) by {
        lemma_order_by_target_in_v01(elements[i].target);
    }
    if order_by_in_v01(elements) {
        lemma_first_error_none(errors, 0);
    } else {
        let k = choose|k: int|
            0 <= k < elements.len() && !order_by_target_in_v01(#[trigger] elements[k].target);
        lemma_first_error_some(errors, 0, k);
    }
}

pub proof fn lemma_query_in_v01(q: plan::QueryNode)
    ensures
        query_error(q) is None <==> query_in_v01(q),
    decreases q, 1int,
{
    if let Some(e) = q.predicate {
        lemma_expression_in_v01(e);
    }
    if let Some(fs) = q.fields {
        lemma_fields_in_v01(fs);
    }
    if let Some(es) = q.order_by {
        lemma_order_by_in_v01(es@);
    }
}

proof fn lemma_fields_in_v01(fields: Vec<(String, plan::Field)>)
    ensures
        fields_error(fields@, 0) is None <==> forall|i: int|
            0 <= i < fields@.len() ==> field_in_v01(#[trigger] fields@[i].1),
    decreases fields, 0int,
{
    let fs = fields@;
    assert forall|i: int| 0 <= i < fs.len() implies (field_error(#[trigger] fs[i].1) is None
        <==> field_in_v01(fs[i].1)) by {
        lemma_field_in_v01(fs[i].1);
    }
    if forall|i: int| 0 <= i < fs.len() ==> field_in_v01(#[trigger] fs[i].1) {
        lemma_fields_error_none(fs, 0);
    } else {
        let k = choose|k: int| 0 <= k < fs.len() && !field_in_v01(#[trigger] fs[k].1);
        lemma_fields_error_some(fs, 0, k);
    }
}

pub proof fn lemma_field_in_v01(f: plan::Field)
    ensures
        field_error(f) is None <==> field_in_v01(f),
    decreases f, 1int,
{
    match f {
        plan::Field::Column { fields, arguments, .. } => {
            if let Some(n) = fields {
                lemma_nested_field_in_v01(n);
            }
            lemma_arguments_in_v01(arguments@);
        },
        plan::Field::Relationship { query_node, arguments, .. } => {
            lemma_query_in_v01(*query_node);
            lemma_arguments_in_v01(arguments@);
        },
    }
}

pub proof fn lemma_nested_field_in_v01(n: plan::NestedField)
    ensures
        nested_field_error(n) is None <==> nested_field_in_v01(n),
    decreases n, 1int,
{
    match n {
        plan::NestedField::Object(o) => lemma_fields_in_v01(o.fields),
        plan::NestedField::Array(a) => lemma_nested_field_in_v01(*a.fields),
    }
}

/// A query plan translates exactly when it keeps to what v0.1 can express:
/// no grouping, no comparison against scalar-array elements, no relationship
/// reached through a nested field in an expression or an ordering target.
pub proof fn lemma_query_plan_translates(p: plan::QueryExecutionPlan)
    ensures
        query_request_error(p) is None <==> query_plan_in_v01(p),
{
    lemma_query_in_v01(p.query_node);
    lemma_arguments_in_v01(p.arguments@);
}

/// A mutation plan translates exactly when its procedure's arguments and
/// selection keep to what v0.1 can express.
pub proof fn lemma_mutation_plan_translates(p: plan::MutationExecutionPlan)
    ensures
        mutation_request_error(p) is None <==> mutation_plan_in_v01(p),
{
    lemma_mutation_arguments_in_v01(p.procedure_arguments@);
    if let Some(n) = p.procedure_fields {
        lemma_nested_field_in_v01(n);
    }
}

} // verus!
