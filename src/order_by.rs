//! Translation of orderings, including the relationships crossed to reach
//! the column that a query is ordered by.
use vstd::prelude::*;

use crate::expression::{expression_error, expression_matches, make_expression, optional_path_matches};
use crate::plan;
use crate::wire;
use crate::{first_error, lemma_first_error_at, lemma_first_error_none, NdcV01CompatibilityError};

verus! {

/// A hop may not pass through a nested field before its relationship; after
/// that, its filter predicate must translate.
pub open spec fn path_element_error(p: plan::RelationshipPathElement) -> Option<
    NdcV01CompatibilityError,
> {
    if p.field_path@.len() > 0 {
        Some(NdcV01CompatibilityError::NestedRelationshipsInOrderByTargetsNotSupported)
    } else {
        match p.filter_predicate {
            Some(e) => expression_error(e),
            None => None,
        }
    }
}

pub open spec fn path_errors(path: Seq<plan::RelationshipPathElement>) -> Seq<
    Option<NdcV01CompatibilityError>,
> {
    path.map_values(|p: plan::RelationshipPathElement| path_element_error(p))
}

pub open spec fn order_by_target_error(t: plan::OrderByTarget) -> Option<NdcV01CompatibilityError> {
    match t {
        plan::OrderByTarget::Column { relationship_path, .. } => first_error(
            path_errors(relationship_path@),
            0,
        ),
    }
}

pub open spec fn order_by_error(elements: Seq<plan::OrderByElement>) -> Option<
    NdcV01CompatibilityError,
> {
    first_error(
        elements.map_values(|e: plan::OrderByElement| order_by_target_error(e.target)),
        0,
    )
}

/// The always-true predicate: a conjunction of nothing.
pub open spec fn is_empty_conjunction(w: wire::Expression) -> bool {
    match w {
        wire::Expression::And { expressions } => expressions@.len() == 0,
        _ => false,
    }
}

/// `w` is the v0.1 form of the hop `p`. A hop without a filter gets the
/// always-true predicate, never an absent one.
pub open spec fn path_element_matches(p: plan::RelationshipPathElement, w: wire::PathElement) -> bool {
    &&& w.relationship == p.relationship_name
    &&& w.arguments@.len() == 0
    &&& match w.predicate {
        Some(b) => match p.filter_predicate {
            Some(e) => expression_matches(e, *b),
            None => is_empty_conjunction(*b),
        },
        None => false,
    }
}

pub open spec fn order_by_target_matches(t: plan::OrderByTarget, w: wire::OrderByTarget) -> bool {
    match (t, w) {
        (
            plan::OrderByTarget::Column { name, field_path, relationship_path },
            wire::OrderByTarget::Column { name: w_name, field_path: w_field_path, path },
        ) => {
            &&& w_name == name
            &&& optional_path_matches(field_path@, w_field_path)
            &&& path@.len() == relationship_path@.len()
            &&& forall|i: int|
                0 <= i < path@.len() ==> path_element_matches(
                    relationship_path@[i],
                    #[trigger] path@[i],
                )
        },
    }
}

pub open spec fn direction_matches(d: plan::OrderByDirection, w: wire::OrderDirection) -> bool {
    match d {
        plan::OrderByDirection::Asc => w == wire::OrderDirection::Asc,
        plan::OrderByDirection::Desc => w == wire::OrderDirection::Desc,
    }
}

pub open spec fn order_by_element_matches(e: plan::OrderByElement, w: wire::OrderByElement) -> bool {
    direction_matches(e.order_direction, w.order_direction) && order_by_target_matches(
        e.target,
        w.target,
    )
}

pub open spec fn order_by_matches(elements: Seq<plan::OrderByElement>, w: wire::OrderBy) -> bool {
    w.elements@.len() == elements.len() && forall|i: int|
        0 <= i < elements.len() ==> order_by_element_matches(
            elements[i],
            #[trigger] w.elements@[i],
        )
}

/// Translates one ordering target, crossing its relationships in order.
pub fn make_order_by_target(target: plan::OrderByTarget) -> (r: Result<
    wire::OrderByTarget,
    NdcV01CompatibilityError,
>)
    ensures
        match r {
            Ok(w) => order_by_target_error(target) is None && order_by_target_matches(target, w),
            Err(x) => order_by_target_error(target) == Some(x),
        },
{
    match target {
        plan::OrderByTarget::Column { name, field_path, relationship_path } => {
            let ghost hops = relationship_path@;
            let ghost errors = path_errors(hops);
            let mut path: Vec<wire::PathElement> = Vec::new();
            // The hops are crossed in the order given: each one leaves from
            // the collection that the one before it reached.
            for hop in it: relationship_path.into_iter()
                invariant
                    it.seq() == hops,
                    errors == path_errors(hops),
                    order_by_target_error(target) == first_error(errors, 0),
                    path@.len() == it.index(),
                    forall|j: int| 0 <= j < it.index() ==> #[trigger] errors[j] is None,
                    forall|j: int|
                        0 <= j < it.index() ==> path_element_matches(hops[j], #[trigger] path@[j]),
            {
                let ghost k = it.index() as int;
                assert(errors[k] == path_element_error(hop));
                if hop.field_path.len() != 0 {
                    proof {
                        lemma_first_error_at(errors, 0, k);
                    }
                    return Err(NdcV01CompatibilityError::NestedRelationshipsInOrderByTargetsNotSupported);
                }
                let predicate = match hop.filter_predicate {
                    Some(e) => match make_expression(e) {
                        Ok(w) => w,
                        Err(x) => {
                            proof {
                                lemma_first_error_at(errors, 0, k);
                            }
                            return Err(x);
                        },
                    },
                    None => wire::Expression::And { expressions: Vec::new() },
                };
                path.push(
                    wire::PathElement {
                        relationship: hop.relationship_name,
                        arguments: Vec::new(),
                        predicate: Some(Box::new(predicate)),
                    },
                );
            }
            proof {
                lemma_first_error_none(errors, 0);
            }
            Ok(
                wire::OrderByTarget::Column {
                    name,
                    field_path: if field_path.len() == 0 {
                        None
                    } else {
                        Some(field_path)
                    },
                    path,
                },
            )
        },
    }
}

/// Translates an ordering, element by element, stopping at the first error.
pub fn make_order_by(order_by_elements: Vec<plan::OrderByElement>) -> (r: Result<
    wire::OrderBy,
    NdcV01CompatibilityError,
>)
    ensures
        match r {
            Ok(w) => order_by_error(order_by_elements@) is None && order_by_matches(
                order_by_elements@,
                w,
            ),
            Err(x) => order_by_error(order_by_elements@) == Some(x),
        },
{
    let ghost elements = order_by_elements@;
    let ghost errors = elements.map_values(
        |e: plan::OrderByElement| order_by_target_error(e.target),
    );
    let mut out: Vec<wire::OrderByElement> = Vec::new();
    for element in it: order_by_elements.into_iter()
        invariant
            it.seq() == elements,
            errors == elements.map_values(
                |e: plan::OrderByElement| order_by_target_error(e.target),
            ),
            out@.len() == it.index(),
            forall|j: int| 0 <= j < it.index() ==> #[trigger] errors[j] is None,
            forall|j: int|
                0 <= j < it.index() ==> order_by_element_matches(elements[j], #[trigger] out@[j]),
    {
        let order_direction = match element.order_direction {
            plan::OrderByDirection::Asc => wire::OrderDirection::Asc,
            plan::OrderByDirection::Desc => wire::OrderDirection::Desc,
        };
        match make_order_by_target(element.target) {
            Ok(target) => out.push(wire::OrderByElement { order_direction, target }),
            Err(x) => {
                proof {
                    lemma_first_error_at(errors, 0, it.index() as int);
                }
                return Err(x);
            },
        }
    }
    proof {
        lemma_first_error_none(errors, 0);
    }
    Ok(wire::OrderBy { elements: out })
}

} // verus!
