//! Properties that hold of every translation.
use vstd::prelude::*;

use crate::aggregates::{aggregates_match, count_matches};
use crate::expression::{expression_error, expression_matches, expressions_error};
use crate::plan::ResolvedFilterExpression as Expr;
use crate::order_by::{is_empty_conjunction, path_element_matches};
use crate::plan;
use crate::query::{fields_match, query_error};
use crate::request::{query_request_error, query_request_matches};
use crate::wire;
use crate::{entry_names, NdcV01CompatibilityError};

verus! {

/// A comparison across a relationship of another connector translates,
/// whatever its identifier, and only to the always-true predicate.
pub proof fn lemma_remote_comparison_always_true(remote_predicate_id: u64, w: wire::Expression)
    ensures
        expression_error(
            plan::ResolvedFilterExpression::RemoteRelationshipComparison { remote_predicate_id },
        ) is None,
        expression_matches(
            plan::ResolvedFilterExpression::RemoteRelationshipComparison { remote_predicate_id },
            w,
        ) <==> is_empty_conjunction(w),
{
}

/// A hop of an ordering target that has no filter predicate is sent with the
/// always-true predicate, never without one.
pub proof fn lemma_hop_without_filter_is_always_true(
    hop: plan::RelationshipPathElement,
    w: wire::PathElement,
)
    requires
        hop.filter_predicate is None,
        path_element_matches(hop, w),
    ensures
        w.predicate matches Some(b) && is_empty_conjunction(*b),
{
}

/// A query node that asks for grouping is refused with `GroupByNotSupported`,
/// whatever else it holds; so is any query request whose node does.
pub proof fn lemma_group_by_refused(p: plan::QueryExecutionPlan)
    requires
        p.query_node.group_by is Some,
    ensures
        query_error(p.query_node) == Some(NdcV01CompatibilityError::GroupByNotSupported),
        query_request_error(p) == Some(NdcV01CompatibilityError::GroupByNotSupported),
{
}

/// An empty column path counts rows; a path of one column counts that column
/// with no nested path; a longer path counts its first column through the
/// rest of it.
pub proof fn lemma_count_paths(path: Seq<String>, distinct: bool, w: wire::Aggregate)
    requires
        count_matches(path, distinct, w),
    ensures
        path.len() == 0 ==> w == wire::Aggregate::StarCount,
        path.len() == 1 ==> w == (wire::Aggregate::ColumnCount {
            column: path[0],
            field_path: None,
            distinct,
        }),
        path.len() > 1 ==> (w matches wire::Aggregate::ColumnCount {
            column,
            field_path: Some(nested),
            distinct: d,
        } && column == path[0] && nested@ == path.subrange(1, path.len() as int) && d == distinct),
{
    if path.len() > 1 {
        assert(path.drop_first() =~= path.subrange(1, path.len() as int));
    }
}

/// A comparison that reaches its relationship through a nested field is
/// refused, whatever its predicate.
pub proof fn lemma_nested_relationship_comparison_refused(
    field_path: Vec<String>,
    relationship: String,
    predicate: Box<plan::ResolvedFilterExpression>,
)
    requires
        field_path@.len() > 0,
    ensures
        expression_error(
            plan::ResolvedFilterExpression::LocalRelationshipComparison {
                field_path,
                relationship,
                predicate,
            },
        ) == Some(NdcV01CompatibilityError::NestedRelationshipsInExpressionsNotSupported),
{
}

/// Selected fields keep their names and their order.
pub proof fn lemma_fields_keep_order(fs: Seq<(String, plan::Field)>, ws: Seq<(String, wire::Field)>)
    requires
        fields_match(fs, ws),
    ensures
        entry_names(ws) == entry_names(fs),
{
    assert(entry_names(ws) =~= entry_names(fs));
}

/// Aggregates keep their names and their order.
pub proof fn lemma_aggregates_keep_order(
    aggregates: Seq<(String, plan::AggregateFieldSelection)>,
    ws: Seq<(String, wire::Aggregate)>,
)
    requires
        aggregates_match(aggregates, ws),
    ensures
        entry_names(ws) == entry_names(aggregates),
{
    assert(entry_names(ws) =~= entry_names(aggregates));
}

/// In a query request the selected fields keep their names and their order.
pub proof fn lemma_query_request_fields_keep_order(p: plan::QueryExecutionPlan, w: wire::QueryRequest)
    requires
        query_request_matches(p, w),
    ensures
        p.query_node.fields matches Some(fs) ==> (w.query.fields matches Some(wf) && entry_names(
            wf@,
        ) == entry_names(fs@)),
{
    if let Some(fs) = p.query_node.fields {
        if let Some(wf) = w.query.fields {
            lemma_fields_keep_order(fs@, wf@);
        }
    }
}

/// `e1` and `e2` are the same expression but for the identifiers of their
/// comparisons across other connectors' relationships.
pub open spec fn same_but_remote_ids(e1: Expr, e2: Expr) -> bool
    decreases e1,
{
    match (e1, e2) {
        (Expr::And { expressions: a }, Expr::And { expressions: b }) => {
            &&& a@.len() == b@.len()
            &&& forall|i: int| 0 <= i < a@.len() ==> same_but_remote_ids(#[trigger] a@[i], b@[i])
        },
        (Expr::Or { expressions: a }, Expr::Or { expressions: b }) => {
            &&& a@.len() == b@.len()
            &&& forall|i: int| 0 <= i < a@.len() ==> same_but_remote_ids(#[trigger] a@[i], b@[i])
        },
        (Expr::Not { expression: a }, Expr::Not { expression: b }) => same_but_remote_ids(*a, *b),
        (Expr::LocalFieldComparison(a), Expr::LocalFieldComparison(b)) => a == b,
        (
            Expr::LocalNestedArray { column: c1, field_path: f1, predicate: p1 },
            Expr::LocalNestedArray { column: c2, field_path: f2, predicate: p2 },
        ) => c1 == c2 && f1@ == f2@ && same_but_remote_ids(*p1, *p2),
        (
            Expr::LocalNestedScalarArray { column: c1, field_path: f1, predicate: p1 },
            Expr::LocalNestedScalarArray { column: c2, field_path: f2, predicate: p2 },
        ) => c1 == c2 && f1@ == f2@ && same_but_remote_ids(*p1, *p2),
        (
            Expr::LocalRelationshipComparison { field_path: f1, relationship: r1, predicate: p1 },
            Expr::LocalRelationshipComparison { field_path: f2, relationship: r2, predicate: p2 },
        ) => r1 == r2 && f1@ == f2@ && same_but_remote_ids(*p1, *p2),
        (Expr::RemoteRelationshipComparison { .. }, Expr::RemoteRelationshipComparison { .. }) => true,
        _ => false,
    }
}

/// The identifiers of remote comparisons never change a translation: two
/// expressions that differ only in them have the same error, and the same
/// translations.
pub proof fn lemma_remote_ids_do_not_matter(e1: Expr, e2: Expr)
    requires
        same_but_remote_ids(e1, e2),
    ensures
        expression_error(e1) == expression_error(e2),
        forall|w: wire::Expression| expression_matches(e1, w) <==> expression_matches(e2, w),
    decreases e1, 0int,
{
    reveal_with_fuel(expression_matches, 2);
    match (e1, e2) {
        (Expr::And { expressions: a }, Expr::And { expressions: b }) => {
            lemma_remote_ids_do_not_matter_list(a, b, 0);
            assert(e1 == Expr::And { expressions: a } && e2 == Expr::And { expressions: b });
            assert forall|w: wire::Expression|
                expression_matches(e1, w) <==> expression_matches(e2, w) by {
                reveal_with_fuel(expression_matches, 2);
                if let wire::Expression::And { expressions: ws } = w {
                    if ws@.len() == a@.len() {
                        assert forall|i: int|
                            #![trigger a@[i]]
                            #![trigger b@[i]]
                            0 <= i < a@.len() implies (expression_matches(a@[i], ws@[i])
                                <==> expression_matches(b@[i], ws@[i])) by {
                            lemma_remote_ids_do_not_matter(a@[i], b@[i]);
                        }
                    }
                }
            }
        },
        (Expr::Or { expressions: a }, Expr::Or { expressions: b }) => {
            lemma_remote_ids_do_not_matter_list(a, b, 0);
            assert(e1 == Expr::Or { expressions: a } && e2 == Expr::Or { expressions: b });
            assert forall|w: wire::Expression|
                expression_matches(e1, w) <==> expression_matches(e2, w) by {
                reveal_with_fuel(expression_matches, 2);
                if let wire::Expression::Or { expressions: ws } = w {
                    if ws@.len() == a@.len() {
                        assert forall|i: int|
                            #![trigger a@[i]]
                            #![trigger b@[i]]
                            0 <= i < a@.len() implies (expression_matches(a@[i], ws@[i])
                                <==> expression_matches(b@[i], ws@[i])) by {
                            lemma_remote_ids_do_not_matter(a@[i], b@[i]);
                        }
                    }
                }
            }
        },
        (Expr::Not { expression: a }, Expr::Not { expression: b }) => {
            lemma_remote_ids_do_not_matter(*a, *b);
            assert forall|w: wire::Expression|
                expression_matches(e1, w) <==> expression_matches(e2, w) by {
                if let wire::Expression::Not { expression: we } = w {
                    assert(expression_matches(*a, *we) <==> expression_matches(*b, *we));
                }
            }
        },
        (
            Expr::LocalNestedArray { predicate: p1, .. },
            Expr::LocalNestedArray { predicate: p2, .. },
        ) => {
            lemma_remote_ids_do_not_matter(*p1, *p2);
            assert forall|w: wire::Expression|
                expression_matches(e1, w) <==> expression_matches(e2, w) by {
                if let wire::Expression::Exists { predicate: Some(wp), .. } = w {
                    assert(expression_matches(*p1, *wp) <==> expression_matches(*p2, *wp));
                }
            }
        },
        (
            Expr::LocalNestedScalarArray { predicate: p1, .. },
            Expr::LocalNestedScalarArray { predicate: p2, .. },
        ) => {},
        (
            Expr::LocalRelationshipComparison { predicate: p1, .. },
            Expr::LocalRelationshipComparison { predicate: p2, .. },
        ) => {
            lemma_remote_ids_do_not_matter(*p1, *p2);
            assert forall|w: wire::Expression|
                expression_matches(e1, w) <==> expression_matches(e2, w) by {
                if let wire::Expression::Exists { predicate: Some(wp), .. } = w {
                    assert(expression_matches(*p1, *wp) <==> expression_matches(*p2, *wp));
                }
            }
        },
        (Expr::LocalFieldComparison(_), Expr::LocalFieldComparison(_)) => {},
        (Expr::RemoteRelationshipComparison { .. }, Expr::RemoteRelationshipComparison { .. }) => {},
        _ => {},
    }
}

proof fn lemma_remote_ids_do_not_matter_list(a: Vec<Expr>, b: Vec<Expr>, i: int)
    requires
        0 <= i <= a@.len(),
        a@.len() == b@.len(),
        forall|j: int| 0 <= j < a@.len() ==> same_but_remote_ids(#[trigger] a@[j], b@[j]),
    ensures
        expressions_error(a@, i) == expressions_error(b@, i),
    decreases a, a@.len() - i,
{
    if i < a@.len() {
        lemma_remote_ids_do_not_matter(a@[i], b@[i]);
        lemma_remote_ids_do_not_matter_list(a, b, i + 1);
    }
}

pub open spec fn optional_path_same(a: Option<Vec<String>>, b: Option<Vec<String>>) -> bool {
    match (a, b) {
        (Some(x), Some(y)) => x@ == y@,
        (None, None) => true,
        _ => false,
    }
}

pub open spec fn comparison_target_same(a: wire::ComparisonTarget, b: wire::ComparisonTarget) -> bool {
    match (a, b) {
        (
            wire::ComparisonTarget::Column { name: n1, field_path: f1, path: p1 },
            wire::ComparisonTarget::Column { name: n2, field_path: f2, path: p2 },
        ) => n1 == n2 && optional_path_same(f1, f2) && p1@ == p2@,
    }
}

pub open spec fn exists_in_same(a: wire::ExistsInCollection, b: wire::ExistsInCollection) -> bool {
    match (a, b) {
        (
            wire::ExistsInCollection::Related { relationship: r1, arguments: a1 },
            wire::ExistsInCollection::Related { relationship: r2, arguments: a2 },
        ) => r1 == r2 && a1@ == a2@,
        (
            wire::ExistsInCollection::NestedCollection {
                column_name: c1,
                field_path: f1,
                arguments: a1,
            },
            wire::ExistsInCollection::NestedCollection {
                column_name: c2,
                field_path: f2,
                arguments: a2,
            },
        ) => c1 == c2 && f1@ == f2@ && a1@ == a2@,
        _ => false,
    }
}

/// `a` and `b` are the same expression: every vector in them holds the same
/// elements. (This is as far as vectors can be compared here.)
pub open spec fn expression_same(a: wire::Expression, b: wire::Expression) -> bool
    decreases a,
{
    match (a, b) {
        (wire::Expression::And { expressions: x }, wire::Expression::And { expressions: y }) => {
            &&& x@.len() == y@.len()
            &&& forall|i: int| 0 <= i < x@.len() ==> expression_same(#[trigger] x@[i], y@[i])
        },
        (wire::Expression::Or { expressions: x }, wire::Expression::Or { expressions: y }) => {
            &&& x@.len() == y@.len()
            &&& forall|i: int| 0 <= i < x@.len() ==> expression_same(#[trigger] x@[i], y@[i])
        },
        (wire::Expression::Not { expression: x }, wire::Expression::Not { expression: y }) => {
            expression_same(*x, *y)
        },
        (
            wire::Expression::UnaryComparisonOperator { column: c1, operator: o1 },
            wire::Expression::UnaryComparisonOperator { column: c2, operator: o2 },
        ) => comparison_target_same(c1, c2) && o1 == o2,
        (
            wire::Expression::BinaryComparisonOperator { column: c1, operator: o1, value: v1 },
            wire::Expression::BinaryComparisonOperator { column: c2, operator: o2, value: v2 },
        ) => comparison_target_same(c1, c2) && o1 == o2 && v1 == v2,
        (
            wire::Expression::Exists { in_collection: i1, predicate: p1 },
            wire::Expression::Exists { in_collection: i2, predicate: p2 },
        ) => exists_in_same(i1, i2) && match (p1, p2) {
            (Some(x), Some(y)) => expression_same(*x, *y),
            (None, None) => true,
            _ => false,
        },
        _ => false,
    }
}

/// The translation of an expression is determined by the expression: any two
/// translations of it are the same.
pub proof fn lemma_expression_translation_unique(e: Expr, w1: wire::Expression, w2: wire::Expression)
    requires
        expression_matches(e, w1),
        expression_matches(e, w2),
    ensures
        expression_same(w1, w2),
    decreases e,
{
    match e {
        Expr::And { expressions } => {
            if let (wire::Expression::And { expressions: x }, wire::Expression::And { expressions: y }) = (w1, w2) {
                assert(crate::expression::expressions_match(expressions@, x@));
                assert(crate::expression::expressions_match(expressions@, y@));
                assert forall|i: int| 0 <= i < x@.len() implies expression_same(#[trigger] x@[i], y@[i]) by {
                    assert(decreases_to!(e => expressions));
                    lemma_expression_translation_unique(expressions@[i], x@[i], y@[i]);
                }
            }
        },
        Expr::Or { expressions } => {
            if let (wire::Expression::Or { expressions: x }, wire::Expression::Or { expressions: y }) = (w1, w2) {
                assert(crate::expression::expressions_match(expressions@, x@));
                assert(crate::expression::expressions_match(expressions@, y@));
                assert forall|i: int| 0 <= i < x@.len() implies expression_same(#[trigger] x@[i], y@[i]) by {
                    assert(decreases_to!(e => expressions));
                    lemma_expression_translation_unique(expressions@[i], x@[i], y@[i]);
                }
            }
        },
        Expr::Not { expression } => {
            if let (wire::Expression::Not { expression: x }, wire::Expression::Not { expression: y }) = (w1, w2) {
                lemma_expression_translation_unique(*expression, *x, *y);
            }
        },
        Expr::LocalNestedArray { predicate, .. } => {
            if let (
                wire::Expression::Exists { in_collection: i1, predicate: Some(x) },
                wire::Expression::Exists { in_collection: i2, predicate: Some(y) },
            ) = (w1, w2) {
                lemma_expression_translation_unique(*predicate, *x, *y);
                if let (
                    wire::ExistsInCollection::NestedCollection { arguments: a1, .. },
                    wire::ExistsInCollection::NestedCollection { arguments: a2, .. },
                ) = (i1, i2) {
                    assert(a1@ =~= a2@);
                }
            }
        },
        Expr::LocalRelationshipComparison { predicate, .. } => {
            if let (
                wire::Expression::Exists { in_collection: i1, predicate: Some(x) },
                wire::Expression::Exists { in_collection: i2, predicate: Some(y) },
            ) = (w1, w2) {
                lemma_expression_translation_unique(*predicate, *x, *y);
                if let (
                    wire::ExistsInCollection::Related { arguments: a1, .. },
                    wire::ExistsInCollection::Related { arguments: a2, .. },
                ) = (i1, i2) {
                    assert(a1@ =~= a2@);
                }
            }
        },
        Expr::LocalFieldComparison(plan::LocalFieldComparison::BinaryComparison { .. }) => {
            if let (
                wire::Expression::BinaryComparisonOperator { column: c1, .. },
                wire::Expression::BinaryComparisonOperator { column: c2, .. },
            ) = (w1, w2) {
                if let (
                    wire::ComparisonTarget::Column { path: p1, .. },
                    wire::ComparisonTarget::Column { path: p2, .. },
                ) = (c1, c2) {
                    assert(p1@ =~= p2@);
                }
            }
        },
        Expr::LocalFieldComparison(plan::LocalFieldComparison::UnaryComparison { .. }) => {
            if let (
                wire::Expression::UnaryComparisonOperator { column: c1, .. },
                wire::Expression::UnaryComparisonOperator { column: c2, .. },
            ) = (w1, w2) {
                if let (
                    wire::ComparisonTarget::Column { path: p1, .. },
                    wire::ComparisonTarget::Column { path: p2, .. },
                ) = (c1, c2) {
                    assert(p1@ =~= p2@);
                }
            }
        },
        _ => {},
    }
}

} // verus!
