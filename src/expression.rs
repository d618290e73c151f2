//! Translation of filter expressions.
use vstd::prelude::*;

use crate::plan;
use crate::plan::ResolvedFilterExpression as Expr;
use crate::wire;
use crate::NdcV01CompatibilityError;

verus! {

/// A path given as a possibly empty sequence, which the protocol writes as
/// absent when it is empty.
pub open spec fn optional_path_matches(path: Seq<String>, w: Option<Vec<String>>) -> bool {
    if path.len() == 0 {
        w is None
    } else {
        w matches Some(v) && v@ == path
    }
}

pub open spec fn comparison_target_matches(
    t: plan::ComparisonTarget,
    w: wire::ComparisonTarget,
) -> bool {
    match (t, w) {
        (
            plan::ComparisonTarget::Column { name, field_path },
            wire::ComparisonTarget::Column { name: w_name, field_path: w_field_path, path },
        ) => w_name == name && optional_path_matches(field_path@, w_field_path) && path@.len()
            == 0,
    }
}

pub open spec fn comparison_value_matches(v: plan::ComparisonValue, w: wire::ComparisonValue) -> bool {
    match v {
        plan::ComparisonValue::Scalar { value } => w == wire::ComparisonValue::Scalar { value },
        plan::ComparisonValue::Variable { name } => w == wire::ComparisonValue::Variable { name },
    }
}

/// The first construct of `e`, children taken in order, that v0.1 cannot
/// express; `None` where the whole expression can be translated.
pub open spec fn expression_error(e: Expr) -> Option<NdcV01CompatibilityError>
    decreases e, 0int,
{
    match e {
        Expr::And { expressions } => expressions_error(expressions@, 0),
        Expr::Or { expressions } => expressions_error(expressions@, 0),
        Expr::Not { expression } => expression_error(*expression),
        Expr::LocalFieldComparison(_) => None,
        Expr::LocalNestedArray { predicate, .. } => expression_error(*predicate),
        Expr::LocalNestedScalarArray { .. } => Some(
            NdcV01CompatibilityError::NestedScalarArrayComparisonsNotSupported,
        ),
        Expr::LocalRelationshipComparison { field_path, predicate, .. } => {
            if field_path@.len() > 0 {
                Some(NdcV01CompatibilityError::NestedRelationshipsInExpressionsNotSupported)
            } else {
                expression_error(*predicate)
            }
        },
        Expr::RemoteRelationshipComparison { .. } => None,
    }
}

/// The first error among `es[i..]`.
pub open spec fn expressions_error(es: Seq<Expr>, i: int) -> Option<NdcV01CompatibilityError>
    decreases es, es.len() - i,
{
    if 0 <= i < es.len() {
        match expression_error(es[i]) {
            Some(x) => Some(x),
            None => expressions_error(es, i + 1),
        }
    } else {
        None
    }
}

/// `w` is the v0.1 form of `e` (meaningful where `expression_error(e)` is `None`).
pub open spec fn expression_matches(e: Expr, w: wire::Expression) -> bool
    decreases e,
{
    match e {
        Expr::And { expressions } => match w {
            wire::Expression::And { expressions: ws } => expressions_match(expressions@, ws@),
            _ => false,
        },
        Expr::Or { expressions } => match w {
            wire::Expression::Or { expressions: ws } => expressions_match(expressions@, ws@),
            _ => false,
        },
        Expr::Not { expression } => match w {
            wire::Expression::Not { expression: w_expression } => expression_matches(
                *expression,
                *w_expression,
            ),
            _ => false,
        },
        Expr::LocalFieldComparison(
            plan::LocalFieldComparison::BinaryComparison { column, operator, value },
        ) => match w {
            wire::Expression::BinaryComparisonOperator {
                column: w_column,
                operator: w_operator,
                value: w_value,
            } => comparison_target_matches(column, w_column) && w_operator == operator
                && comparison_value_matches(value, w_value),
            _ => false,
        },
        Expr::LocalFieldComparison(plan::LocalFieldComparison::UnaryComparison { column, operator }) => {
            match w {
                wire::Expression::UnaryComparisonOperator { column: w_column, operator: w_operator } => {
                    comparison_target_matches(column, w_column) && match operator {
                        plan::UnaryComparisonOperator::IsNull => w_operator
                            == wire::UnaryComparisonOperator::IsNull,
                    }
                },
                _ => false,
            }
        },
        Expr::LocalNestedArray { column, field_path, predicate } => match w {
            wire::Expression::Exists {
                in_collection:
                    wire::ExistsInCollection::NestedCollection {
                        column_name,
                        field_path: w_field_path,
                        arguments,
                    },
                predicate: Some(w_predicate),
            } => column_name == column && w_field_path@ == field_path@ && arguments@.len() == 0
                && expression_matches(*predicate, *w_predicate),
            _ => false,
        },
        Expr::LocalNestedScalarArray { .. } => false,
        Expr::LocalRelationshipComparison { field_path, relationship, predicate } => match w {
            wire::Expression::Exists {
                in_collection:
                    wire::ExistsInCollection::Related { relationship: w_relationship, arguments },
                predicate: Some(w_predicate),
            } => field_path@.len() == 0 && w_relationship == relationship && arguments@.len() == 0
                && expression_matches(*predicate, *w_predicate),
            _ => false,
        },
        Expr::RemoteRelationshipComparison { .. } => match w {
            wire::Expression::And { expressions } => expressions@.len() == 0,
            _ => false,
        },
    }
}

/// Each of `ws` is the v0.1 form of the expression at the same place in `es`.
pub open spec fn expressions_match(es: Seq<Expr>, ws: Seq<wire::Expression>) -> bool
    decreases es,
{
    ws.len() == es.len() && forall|i: int|
        0 <= i < es.len() ==> expression_matches(#[trigger] es[i], ws[i])
}

/// What `make_expression` promises: the translation where there is no error,
/// else the first error.
pub open spec fn expression_result(
    e: Expr,
    r: Result<wire::Expression, NdcV01CompatibilityError>,
) -> bool {
    match r {
        Ok(w) => expression_error(e) is None && expression_matches(e, w),
        Err(x) => expression_error(e) == Some(x),
    }
}

pub proof fn lemma_expressions_error_none(es: Seq<Expr>, i: int)
    requires
        0 <= i <= es.len(),
        forall|j: int| i <= j < es.len() ==> expression_error(#[trigger] es[j]) is None,
    ensures
        expressions_error(es, i) is None,
    decreases es.len() - i,
{
    if i < es.len() {
        lemma_expressions_error_none(es, i + 1);
    }
}

pub proof fn lemma_expressions_error_at(es: Seq<Expr>, i: int, k: int)
    requires
        0 <= i <= k < es.len(),
        forall|j: int| i <= j < k ==> expression_error(#[trigger] es[j]) is None,
        expression_error(es[k]) is Some,
    ensures
        expressions_error(es, i) == expression_error(es[k]),
    decreases k - i,
{
    if i < k {
        lemma_expressions_error_at(es, i + 1, k);
    }
}

pub proof fn lemma_expressions_error_some(es: Seq<Expr>, i: int, k: int)
    requires
        0 <= i <= k < es.len(),
        expression_error(es[k]) is Some,
    ensures
        expressions_error(es, i) is Some,
    decreases k - i,
{
    if i < k && expression_error(es[i]) is None {
        lemma_expressions_error_some(es, i + 1, k);
    }
}

/// Translates each expression in order, stopping at the first error.
fn make_expressions(expressions: Vec<Expr>) -> (r: Result<Vec<wire::Expression>, NdcV01CompatibilityError>)
    ensures
        match r {
            Ok(ws) => expressions_error(expressions@, 0) is None && expressions_match(
                expressions@,
                ws@,
            ),
            Err(x) => expressions_error(expressions@, 0) == Some(x),
        },
    decreases expressions,
{
    let ghost es = expressions@;
    let mut out: Vec<wire::Expression> = Vec::new();
    for expression in it: expressions.into_iter()
        invariant
            it.seq() == es,
            out@.len() == it.index(),
            forall|j: int|
                0 <= j < it.index() ==> expression_error(#[trigger] es[j]) is None
                    && expression_matches(es[j], out@[j]),
    {
        assert(decreases_to!(expressions => expression));
        match make_expression(expression) {
            Ok(w) => out.push(w),
            Err(x) => {
                proof {
                    lemma_expressions_error_at(es, 0, it.index() as int);
                }
                return Err(x);
            },
        }
    }
    proof {
        lemma_expressions_error_none(es, 0);
    }
    Ok(out)
}

pub fn make_comparison_target(comparison_target: plan::ComparisonTarget) -> (r:
    wire::ComparisonTarget)
    ensures
        comparison_target_matches(comparison_target, r),
{
    match comparison_target {
        plan::ComparisonTarget::Column { name, field_path } => {
            wire::ComparisonTarget::Column {
                name,
                field_path: if field_path.len() == 0 {
                    None
                } else {
                    Some(field_path)
                },
                path: Vec::new(),
            }
        },
    }
}

pub fn make_comparison_value(comparison_value: plan::ComparisonValue) -> (r: wire::ComparisonValue)
    ensures
        comparison_value_matches(comparison_value, r),
{
    match comparison_value {
        plan::ComparisonValue::Scalar { value } => wire::ComparisonValue::Scalar { value },
        plan::ComparisonValue::Variable { name } => wire::ComparisonValue::Variable { name },
    }
}

/// Translates a filter expression into its v0.1 form, or gives the first
/// construct in it that v0.1 cannot express.
pub fn make_expression(predicate: Expr) -> (r: Result<wire::Expression, NdcV01CompatibilityError>)
    ensures
        expression_result(predicate, r),
    decreases predicate,
{
    match predicate {
        Expr::And { expressions } => {
            let ws = make_expressions(expressions)?;
            Ok(wire::Expression::And { expressions: ws })
        },
        Expr::Or { expressions } => {
            let ws = make_expressions(expressions)?;
            Ok(wire::Expression::Or { expressions: ws })
        },
        Expr::Not { expression } => {
            let w = make_expression(*expression)?;
            Ok(wire::Expression::Not { expression: Box::new(w) })
        },
        Expr::LocalFieldComparison(
            plan::LocalFieldComparison::BinaryComparison { column, operator, value },
        ) => Ok(
            wire::Expression::BinaryComparisonOperator {
                column: make_comparison_target(column),
                operator,
                value: make_comparison_value(value),
            },
        ),
        Expr::LocalFieldComparison(plan::LocalFieldComparison::UnaryComparison { column, operator }) => {
            Ok(
                wire::Expression::UnaryComparisonOperator {
                    column: make_comparison_target(column),
                    operator: match operator {
                        plan::UnaryComparisonOperator::IsNull => wire::UnaryComparisonOperator::IsNull,
                    },
                },
            )
        },
        Expr::LocalNestedArray { column, field_path, predicate } => {
            let w = make_expression(*predicate)?;
            Ok(
                wire::Expression::Exists {
                    in_collection: wire::ExistsInCollection::NestedCollection {
                        column_name: column,
                        field_path,
                        arguments: Vec::new(),
                    },
                    predicate: Some(Box::new(w)),
                },
            )
        },
        Expr::LocalNestedScalarArray { .. } => Err(
            NdcV01CompatibilityError::NestedScalarArrayComparisonsNotSupported,
        ),
        Expr::LocalRelationshipComparison { field_path, relationship, predicate } => {
            if field_path.len() != 0 {
                return Err(NdcV01CompatibilityError::NestedRelationshipsInExpressionsNotSupported);
            }
            let w = make_expression(*predicate)?;
            Ok(
                wire::Expression::Exists {
                    in_collection: wire::ExistsInCollection::Related {
                        relationship,
                        arguments: Vec::new(),
                    },
                    predicate: Some(Box::new(w)),
                },
            )
        },
        // The engine evaluates predicates over other connectors' data itself,
        // so this connector is asked to match every row.
        Expr::RemoteRelationshipComparison { .. } => Ok(
            wire::Expression::And { expressions: Vec::new() },
        ),
    }
}

} // verus!
