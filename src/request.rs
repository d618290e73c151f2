//! The two requests of the v0.1 protocol, built from whole plans, and the
//! relationship definitions they carry.
use vstd::prelude::*;

use crate::arguments::{
    arguments_error, arguments_match, make_arguments, make_mutation_arguments,
    make_relationship_arguments, mutation_arguments_error, mutation_arguments_match,
    relationship_arguments_match,
};
use crate::plan;
use crate::query::{
    make_nested_field, make_query, nested_field_error, nested_field_matches, or_else, query_error,
    query_matches,
};
use crate::wire;
use crate::{entry_names, NdcV01CompatibilityError};

verus! {

pub open spec fn relationship_type_matches(t: plan::RelationshipType, w: wire::RelationshipType) -> bool {
    match t {
        plan::RelationshipType::Object => w == wire::RelationshipType::Object,
        plan::RelationshipType::Array => w == wire::RelationshipType::Array,
    }
}

/// `w` is the v0.1 form of the relationship definition `r`: its column
/// mapping, cardinality and target as they are, and its argument template
/// translated.
pub open spec fn relationship_matches(r: plan::Relationship, w: wire::Relationship) -> bool {
    &&& w.column_mapping@ == r.column_mapping@
    &&& relationship_type_matches(r.relationship_type, w.relationship_type)
    &&& w.target_collection == r.target_collection
    &&& relationship_arguments_match(r.arguments@, w.arguments@)
}

/// Entry by entry, in the order given.
pub open spec fn relationships_match(
    rs: Seq<(String, plan::Relationship)>,
    ws: Seq<(String, wire::Relationship)>,
) -> bool {
    ws.len() == rs.len() && forall|i: int|
        0 <= i < rs.len() ==> (#[trigger] ws[i]).0 == rs[i].0 && relationship_matches(
            rs[i].1,
            ws[i].1,
        )
}

pub open spec fn query_request_error(p: plan::QueryExecutionPlan) -> Option<
    NdcV01CompatibilityError,
> {
    or_else(query_error(p.query_node), arguments_error(p.arguments@))
}

pub open spec fn query_request_matches(p: plan::QueryExecutionPlan, w: wire::QueryRequest) -> bool {
    &&& w.collection == p.collection
    &&& query_matches(p.query_node, w.query)
    &&& arguments_match(p.arguments@, w.arguments@)
    &&& relationships_match(p.collection_relationships@, w.collection_relationships@)
    &&& w.variables == p.variables
}

pub open spec fn mutation_request_error(p: plan::MutationExecutionPlan) -> Option<
    NdcV01CompatibilityError,
> {
    or_else(
        mutation_arguments_error(p.procedure_arguments@),
        match p.procedure_fields {
            Some(n) => nested_field_error(n),
            None => None,
        },
    )
}

/// `w` holds one operation: the procedure of `p`, with its arguments and its
/// selection translated.
pub open spec fn mutation_request_matches(
    p: plan::MutationExecutionPlan,
    w: wire::MutationRequest,
) -> bool {
    &&& w.operations@.len() == 1
    &&& match w.operations@[0] {
        wire::MutationOperation::Procedure { name, arguments, fields } => {
            &&& name == p.procedure_name
            &&& mutation_arguments_match(p.procedure_arguments@, arguments@)
            &&& match p.procedure_fields {
                Some(n) => fields matches Some(wn) && nested_field_matches(n, wn),
                None => fields is None,
            }
        },
    }
    &&& relationships_match(p.collection_relationships@, w.collection_relationships@)
}

pub fn make_relationship(relationship: plan::Relationship) -> (r: wire::Relationship)
    requires
        plan::relationship_valid(relationship),
    ensures
        relationship_matches(relationship, r),
        wire::relationship_valid(r),
{
    let plan::Relationship { column_mapping, relationship_type, target_collection, arguments } =
        relationship;
    assert(entry_names(column_mapping@) == entry_names(relationship.column_mapping@));
    wire::Relationship {
        column_mapping,
        relationship_type: match relationship_type {
            plan::RelationshipType::Object => wire::RelationshipType::Object,
            plan::RelationshipType::Array => wire::RelationshipType::Array,
        },
        target_collection,
        arguments: make_relationship_arguments(arguments),
    }
}

/// Translates the relationship definitions that a request refers to.
pub fn make_collection_relationships(
    collection_relationships: Vec<(String, plan::Relationship)>,
) -> (r: Vec<(String, wire::Relationship)>)
    requires
        plan::relationships_valid(collection_relationships@),
    ensures
        relationships_match(collection_relationships@, r@),
        wire::relationships_valid(r@),
{
    let ghost rs = collection_relationships@;
    let mut out: Vec<(String, wire::Relationship)> = Vec::new();
    for entry in it: collection_relationships.into_iter()
        invariant
            it.seq() == rs,
            plan::relationships_valid(rs),
            out@.len() == it.index(),
            forall|j: int| 0 <= j < it.index() ==> wire::relationship_valid(#[trigger] out@[j].1),
            forall|j: int|
                0 <= j < it.index() ==> (#[trigger] out@[j]).0 == rs[j].0 && relationship_matches(
                    rs[j].1,
                    out@[j].1,
                ),
    {
        let (name, relationship) = entry;
        out.push((name, make_relationship(relationship)));
    }
    assert(entry_names(out@) =~= entry_names(rs));
    out
}

/// The batches of variable values: each name and value is carried as it is.
pub fn make_variables(variables: Option<Vec<Vec<(String, serde_json::Value)>>>) -> (r: Option<
    Vec<Vec<(String, serde_json::Value)>>,
>)
    requires
        plan::variables_valid(variables),
    ensures
        r == variables,
{
    variables
}

/// Builds the v0.1 query request for a plan, or gives the first construct in
/// it that v0.1 cannot express: the query node is looked at before the
/// arguments.
pub fn make_query_request(query_execution_plan: plan::QueryExecutionPlan) -> (r: Result<
    wire::QueryRequest,
    NdcV01CompatibilityError,
>)
    requires
        plan::query_plan_valid(query_execution_plan),
    ensures
        match r {
            Ok(w) => wire::query_request_valid(w) && query_request_error(query_execution_plan) is None && query_request_matches(
                query_execution_plan,
                w,
            ),
            Err(x) => query_request_error(query_execution_plan) == Some(x),
        },
{
    let plan::QueryExecutionPlan {
        collection,
        query_node,
        arguments,
        collection_relationships,
        variables,
    } = query_execution_plan;
    let query = make_query(query_node)?;
    let arguments = make_arguments(arguments)?;
    Ok(
        wire::QueryRequest {
            collection,
            query,
            arguments,
            collection_relationships: make_collection_relationships(collection_relationships),
            variables: make_variables(variables),
        },
    )
}

/// Builds the v0.1 mutation request for a plan: one procedure operation.
/// The procedure's arguments are looked at before its selection.
pub fn make_mutation_request(mutation_execution_plan: plan::MutationExecutionPlan) -> (r: Result<
    wire::MutationRequest,
    NdcV01CompatibilityError,
>)
    requires
        plan::mutation_plan_valid(mutation_execution_plan),
    ensures
        match r {
            Ok(w) => wire::mutation_request_valid(w) && mutation_request_error(mutation_execution_plan) is None
                && mutation_request_matches(mutation_execution_plan, w),
            Err(x) => mutation_request_error(mutation_execution_plan) == Some(x),
        },
{
    let plan::MutationExecutionPlan {
        procedure_name,
        procedure_arguments,
        procedure_fields,
        collection_relationships,
    } = mutation_execution_plan;
    let arguments = make_mutation_arguments(procedure_arguments)?;
    let fields = match procedure_fields {
        Some(n) => Some(make_nested_field(n)?),
        None => None,
    };
    let mut operations: Vec<wire::MutationOperation> = Vec::new();
    operations.push(wire::MutationOperation::Procedure { name: procedure_name, arguments, fields });
    Ok(
        wire::MutationRequest {
            operations,
            collection_relationships: make_collection_relationships(collection_relationships),
        },
    )
}

} // verus!
