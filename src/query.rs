//! Translation of query nodes and of the fields they select, down through
//! nested objects, nested arrays and relationships.
use vstd::prelude::*;

use crate::aggregates::{aggregates_match, make_aggregates};
use crate::arguments::{
    arguments_error, arguments_match, make_arguments, make_relationship_arguments_from_arguments,
    relationship_arguments_from_arguments_match,
};
use crate::expression::{expression_error, expression_matches, make_expression};
use crate::order_by::{make_order_by, order_by_error, order_by_matches};
use crate::plan;
use crate::wire;
use crate::{entry_names, NdcV01CompatibilityError};

verus! {

/// `a` where it is an error, else `b`.
pub open spec fn or_else(
    a: Option<NdcV01CompatibilityError>,
    b: Option<NdcV01CompatibilityError>,
) -> Option<NdcV01CompatibilityError> {
    if a is Some {
        a
    } else {
        b
    }
}

/// The first construct of `q` that v0.1 cannot express. Grouping is refused
/// before anything else is looked at; then come the predicate, the fields
/// and the ordering, in that order. Aggregates always translate.
pub open spec fn query_error(q: plan::QueryNode) -> Option<NdcV01CompatibilityError>
    decreases q, 0int,
{
    if q.group_by is Some {
        Some(NdcV01CompatibilityError::GroupByNotSupported)
    } else {
        let predicate_error = match q.predicate {
            Some(e) => expression_error(e),
            None => None,
        };
        let fields_error = match q.fields {
            Some(fs) => fields_error(fs@, 0),
            None => None,
        };
        let order_error = match q.order_by {
            Some(es) => order_by_error(es@),
            None => None,
        };
        or_else(predicate_error, or_else(fields_error, order_error))
    }
}

/// The first error among the fields `fs[i..]`.
pub open spec fn fields_error(fs: Seq<(String, plan::Field)>, i: int) -> Option<
    NdcV01CompatibilityError,
>
    decreases fs, fs.len() - i,
{
    if 0 <= i < fs.len() {
        match field_error(fs[i].1) {
            Some(x) => Some(x),
            None => fields_error(fs, i + 1),
        }
    } else {
        None
    }
}

/// A column's nested selection is looked at before its arguments; a
/// relationship's query before its arguments.
pub open spec fn field_error(f: plan::Field) -> Option<NdcV01CompatibilityError>
    decreases f, 0int,
{
    match f {
        plan::Field::Column { fields, arguments, .. } => or_else(
            match fields {
                Some(n) => nested_field_error(n),
                None => None,
            },
            arguments_error(arguments@),
        ),
        plan::Field::Relationship { query_node, arguments, .. } => or_else(
            query_error(*query_node),
            arguments_error(arguments@),
        ),
    }
}

pub open spec fn nested_field_error(n: plan::NestedField) -> Option<NdcV01CompatibilityError>
    decreases n, 0int,
{
    match n {
        plan::NestedField::Object(o) => fields_error(o.fields@, 0),
        plan::NestedField::Array(a) => nested_field_error(*a.fields),
    }
}

/// `w` is the v0.1 form of `q`: limit and offset as they are, each other
/// part present exactly where it is present in `q`, and translated.
pub open spec fn query_matches(q: plan::QueryNode, w: wire::Query) -> bool
    decreases q,
{
    &&& w.limit == q.limit
    &&& w.offset == q.offset
    &&& match q.predicate {
        Some(e) => w.predicate matches Some(we) && expression_matches(e, we),
        None => w.predicate is None,
    }
    &&& match q.order_by {
        Some(es) => w.order_by matches Some(ob) && order_by_matches(es@, ob),
        None => w.order_by is None,
    }
    &&& match q.aggregates {
        Some(a) => w.aggregates matches Some(wa) && aggregates_match(a@, wa@),
        None => w.aggregates is None,
    }
    &&& match q.fields {
        Some(fs) => w.fields matches Some(wf) && fields_match(fs@, wf@),
        None => w.fields is None,
    }
}

/// Entry by entry, in selection order.
pub open spec fn fields_match(fs: Seq<(String, plan::Field)>, ws: Seq<(String, wire::Field)>) -> bool
    decreases fs,
{
    ws.len() == fs.len() && forall|i: int|
        0 <= i < fs.len() ==> (#[trigger] ws[i]).0 == fs[i].0 && field_matches(fs[i].1, ws[i].1)
}

pub open spec fn field_matches(f: plan::Field, w: wire::Field) -> bool
    decreases f,
{
    match f {
        plan::Field::Column { column, fields, arguments } => match w {
            wire::Field::Column { column: w_column, fields: w_fields, arguments: w_arguments } => {
                &&& w_column == column
                &&& match fields {
                    Some(n) => w_fields matches Some(wn) && nested_field_matches(n, wn),
                    None => w_fields is None,
                }
                &&& arguments_match(arguments@, w_arguments@)
            },
            _ => false,
        },
        plan::Field::Relationship { query_node, relationship, arguments } => match w {
            wire::Field::Relationship {
                query,
                relationship: w_relationship,
                arguments: w_arguments,
            } => {
                &&& query_matches(*query_node, *query)
                &&& w_relationship == relationship
                &&& relationship_arguments_from_arguments_match(arguments@, w_arguments@)
            },
            _ => false,
        },
    }
}

pub open spec fn nested_field_matches(n: plan::NestedField, w: wire::NestedField) -> bool
    decreases n,
{
    match n {
        plan::NestedField::Object(o) => match w {
            wire::NestedField::Object(wo) => fields_match(o.fields@, wo.fields@),
            _ => false,
        },
        plan::NestedField::Array(a) => match w {
            wire::NestedField::Array(wa) => nested_field_matches(*a.fields, *wa.fields),
            _ => false,
        },
    }
}

pub proof fn lemma_fields_error_none(fs: Seq<(String, plan::Field)>, i: int)
    requires
        0 <= i <= fs.len(),
        forall|j: int| i <= j < fs.len() ==> field_error(#[trigger] fs[j].1) is None,
    ensures
        fields_error(fs, i) is None,
    decreases fs.len() - i,
{
    if i < fs.len() {
        lemma_fields_error_none(fs, i + 1);
    }
}

pub proof fn lemma_fields_error_at(fs: Seq<(String, plan::Field)>, i: int, k: int)
    requires
        0 <= i <= k < fs.len(),
        forall|j: int| i <= j < k ==> field_error(#[trigger] fs[j].1) is None,
        field_error(fs[k].1) is Some,
    ensures
        fields_error(fs, i) == field_error(fs[k].1),
    decreases k - i,
{
    if i < k {
        lemma_fields_error_at(fs, i + 1, k);
    }
}

pub proof fn lemma_fields_error_some(fs: Seq<(String, plan::Field)>, i: int, k: int)
    requires
        0 <= i <= k < fs.len(),
        field_error(fs[k].1) is Some,
    ensures
        fields_error(fs, i) is Some,
    decreases k - i,
{
    if i < k && field_error(fs[i].1) is None {
        lemma_fields_error_some(fs, i + 1, k);
    }
}

/// Translates a selection of fields, keeping its order, stopping at the
/// first error.
pub fn make_fields(fields: Vec<(String, plan::Field)>) -> (r: Result<
    Vec<(String, wire::Field)>,
    NdcV01CompatibilityError,
>)
    requires
        plan::fields_valid(fields@),
    ensures
        match r {
            Ok(ws) => wire::fields_valid(ws@) && fields_error(fields@, 0) is None && fields_match(fields@, ws@),
            Err(x) => fields_error(fields@, 0) == Some(x),
        },
    decreases fields,
{
    let ghost fs = fields@;
    let mut out: Vec<(String, wire::Field)> = Vec::new();
    for entry in it: fields.into_iter()
        invariant
            it.seq() == fs,
            plan::fields_valid(fs),
            out@.len() == it.index(),
            forall|j: int| 0 <= j < it.index() ==> wire::field_valid(#[trigger] out@[j].1),
            forall|j: int| 0 <= j < it.index() ==> field_error(#[trigger] fs[j].1) is None,
            forall|j: int|
                0 <= j < it.index() ==> (#[trigger] out@[j]).0 == fs[j].0 && field_matches(
                    fs[j].1,
                    out@[j].1,
                ),
    {
        assert(decreases_to!(fields => entry.1));
        let (name, field) = entry;
        match make_field(field) {
            Ok(w) => out.push((name, w)),
            Err(x) => {
                proof {
                    lemma_fields_error_at(fs, 0, it.index() as int);
                }
                return Err(x);
            },
        }
    }
    proof {
        lemma_fields_error_none(fs, 0);
    }
    assert(entry_names(out@) =~= entry_names(fs));
    Ok(out)
}

/// Translates one selected field: a column with its nested selection and
/// arguments, or a relationship with its query and arguments.
pub fn make_field(field: plan::Field) -> (r: Result<wire::Field, NdcV01CompatibilityError>)
    requires
        plan::field_valid(field),
    ensures
        match r {
            Ok(w) => wire::field_valid(w) && field_error(field) is None && field_matches(field, w),
            Err(x) => field_error(field) == Some(x),
        },
    decreases field,
{
    match field {
        plan::Field::Column { column, fields, arguments } => {
            let nested_fields = match fields {
                Some(n) => Some(make_nested_field(n)?),
                None => None,
            };
            Ok(
                wire::Field::Column {
                    column,
                    fields: nested_fields,
                    arguments: make_arguments(arguments)?,
                },
            )
        },
        plan::Field::Relationship { query_node, relationship, arguments } => {
            let query = make_query(*query_node)?;
            Ok(
                wire::Field::Relationship {
                    query: Box::new(query),
                    relationship,
                    arguments: make_relationship_arguments_from_arguments(arguments)?,
                },
            )
        },
    }
}

pub fn make_nested_field(nested_field: plan::NestedField) -> (r: Result<
    wire::NestedField,
    NdcV01CompatibilityError,
>)
    requires
        plan::nested_field_valid(nested_field),
    ensures
        match r {
            Ok(w) => wire::nested_field_valid(w) && nested_field_error(nested_field) is None && nested_field_matches(
                nested_field,
                w,
            ),
            Err(x) => nested_field_error(nested_field) == Some(x),
        },
    decreases nested_field,
{
    match nested_field {
        plan::NestedField::Object(nested_object) => Ok(
            wire::NestedField::Object(make_nested_object(nested_object)?),
        ),
        plan::NestedField::Array(nested_array) => Ok(
            wire::NestedField::Array(make_nested_array(nested_array)?),
        ),
    }
}

pub fn make_nested_object(nested_object: plan::NestedObject) -> (r: Result<
    wire::NestedObject,
    NdcV01CompatibilityError,
>)
    requires
        plan::fields_valid(nested_object.fields@),
    ensures
        match r {
            Ok(w) => wire::fields_valid(w.fields@) && fields_error(nested_object.fields@, 0) is None && fields_match(
                nested_object.fields@,
                w.fields@,
            ),
            Err(x) => fields_error(nested_object.fields@, 0) == Some(x),
        },
    decreases nested_object,
{
    let fields = make_fields(nested_object.fields)?;
    Ok(wire::NestedObject { fields })
}

pub fn make_nested_array(nested_array: plan::NestedArray) -> (r: Result<
    wire::NestedArray,
    NdcV01CompatibilityError,
>)
    requires
        plan::nested_field_valid(*nested_array.fields),
    ensures
        match r {
            Ok(w) => wire::nested_field_valid(*w.fields) && nested_field_error(*nested_array.fields) is None && nested_field_matches(
                *nested_array.fields,
                *w.fields,
            ),
            Err(x) => nested_field_error(*nested_array.fields) == Some(x),
        },
    decreases nested_array,
{
    let fields = make_nested_field(*nested_array.fields)?;
    Ok(wire::NestedArray { fields: Box::new(fields) })
}

/// Translates a query node. A node that asks for grouping is refused before
/// any other part of it is translated.
pub fn make_query(query_node: plan::QueryNode) -> (r: Result<wire::Query, NdcV01CompatibilityError>)
    requires
        plan::query_node_valid(query_node),
    ensures
        match r {
            Ok(w) => wire::query_valid(w) && query_error(query_node) is None && query_matches(query_node, w),
            Err(x) => query_error(query_node) == Some(x),
        },
    decreases query_node,
{
    if query_node.group_by.is_some() {
        return Err(NdcV01CompatibilityError::GroupByNotSupported);
    }
    let plan::QueryNode { limit, offset, order_by, predicate, aggregates, fields, group_by: _ } =
        query_node;
    let predicate = match predicate {
        Some(e) => Some(make_expression(e)?),
        None => None,
    };
    let fields = match fields {
        Some(fs) => Some(make_fields(fs)?),
        None => None,
    };
    let order_by = match order_by {
        Some(es) => Some(make_order_by(es)?),
        None => None,
    };
    let aggregates = match aggregates {
        Some(a) => Some(make_aggregates(a)),
        None => None,
    };
    Ok(wire::Query { aggregates, fields, limit, offset, order_by, predicate })
}

} // verus!
