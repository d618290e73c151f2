//! The engine's request plan: what a query or mutation asks of a connector,
//! independent of any protocol revision.
//!
//! Maps that keep the order in which their entries were selected (fields,
//! aggregates) and maps sorted by name (arguments, relationships, column
//! mappings) are both held as sequences of `(name, value)` entries. A valid
//! plan (`query_plan_valid`, `mutation_plan_valid`) has no name twice in the
//! first kind and every map of the second kind strictly sorted by name, at
//! every depth.
use vstd::prelude::*;

use crate::{entry_names, names_sorted, names_unique};

verus! {

/// A JSON document, carried through the translation untouched.
#[verifier::external_type_specification]
#[verifier::external_body]
pub struct ExJsonValue(serde_json::Value);

/// The column that a comparison reads, with an optional path into its nested fields.
#[derive(Debug, PartialEq)]
pub enum ComparisonTarget {
    Column { name: String, field_path: Vec<String> },
}

/// The right-hand side of a binary comparison.
#[derive(Debug, PartialEq)]
pub enum ComparisonValue {
    Scalar { value: serde_json::Value },
    Variable { name: String },
}

#[derive(Debug, PartialEq)]
pub enum UnaryComparisonOperator {
    IsNull,
}

#[derive(Debug, PartialEq)]
pub enum LocalFieldComparison {
    BinaryComparison { column: ComparisonTarget, operator: String, value: ComparisonValue },
    UnaryComparison { column: ComparisonTarget, operator: UnaryComparisonOperator },
}

/// A boolean filter over the rows of a collection.
#[derive(Debug, PartialEq)]
pub enum ResolvedFilterExpression {
    And { expressions: Vec<ResolvedFilterExpression> },
    Or { expressions: Vec<ResolvedFilterExpression> },
    Not { expression: Box<ResolvedFilterExpression> },
    LocalFieldComparison(LocalFieldComparison),
    /// Some element of a nested array of objects, reached through `field_path`, matches.
    LocalNestedArray {
        column: String,
        field_path: Vec<String>,
        predicate: Box<ResolvedFilterExpression>,
    },
    /// Some element of a nested array of scalars matches.
    LocalNestedScalarArray {
        column: String,
        field_path: Vec<String>,
        predicate: Box<ResolvedFilterExpression>,
    },
    /// Some row across `relationship` matches, after first following `field_path`.
    LocalRelationshipComparison {
        field_path: Vec<String>,
        relationship: String,
        predicate: Box<ResolvedFilterExpression>,
    },
    /// A predicate over data of another connector, evaluated by the engine itself.
    RemoteRelationshipComparison { remote_predicate_id: u64 },
}

/// An argument supplied to a field, a function or a collection.
#[derive(Debug, PartialEq)]
pub enum Argument {
    Literal { value: serde_json::Value },
    Variable { name: String },
    BooleanExpression { predicate: ResolvedFilterExpression },
}

/// An argument in a relationship's declared template: a column of the source row.
#[derive(Debug, PartialEq)]
pub enum RelationshipArgument {
    Column { name: String },
}

/// An argument of a procedure.
#[derive(Debug, PartialEq)]
pub enum MutationArgument {
    Literal { value: serde_json::Value },
    BooleanExpression { predicate: ResolvedFilterExpression },
}

/// A selected field, in selection order.
#[derive(Debug, PartialEq)]
pub enum Field {
    Column {
        column: String,
        fields: Option<NestedField>,
        arguments: Vec<(String, Argument)>,
    },
    Relationship {
        query_node: Box<QueryNode>,
        relationship: String,
        arguments: Vec<(String, Argument)>,
    },
}

/// A projection into a column of object or array type.
#[derive(Debug, PartialEq)]
pub enum NestedField {
    Object(NestedObject),
    Array(NestedArray),
}

#[derive(Debug, PartialEq)]
pub struct NestedObject {
    pub fields: Vec<(String, Field)>,
}

#[derive(Debug, PartialEq)]
pub struct NestedArray {
    pub fields: Box<NestedField>,
}

#[derive(Debug, PartialEq)]
pub enum OrderByDirection {
    Asc,
    Desc,
}

/// One relationship crossed on the way to the column that a query is ordered by.
#[derive(Debug, PartialEq)]
pub struct RelationshipPathElement {
    pub field_path: Vec<String>,
    pub relationship_name: String,
    pub filter_predicate: Option<ResolvedFilterExpression>,
}

#[derive(Debug, PartialEq)]
pub enum OrderByTarget {
    Column {
        name: String,
        field_path: Vec<String>,
        relationship_path: Vec<RelationshipPathElement>,
    },
}

#[derive(Debug, PartialEq)]
pub struct OrderByElement {
    pub order_direction: OrderByDirection,
    pub target: OrderByTarget,
}

/// A path of columns that holds at least one column: the column, then the
/// path into its nested fields.
#[derive(Debug, PartialEq)]
pub struct ColumnPath {
    pub head: String,
    pub tail: Vec<String>,
}

#[derive(Debug, PartialEq)]
pub enum AggregateFieldSelection {
    Count { column_path: Vec<String> },
    CountDistinct { column_path: Vec<String> },
    AggregationFunction { function_name: String, column_path: ColumnPath },
}

/// A grouping of rows; no part of it is read by the v0.1 translation.
#[derive(Debug, PartialEq)]
pub struct Grouping {
    pub dimensions: Vec<Vec<String>>,
    pub aggregates: Vec<(String, AggregateFieldSelection)>,
}

#[derive(Debug, PartialEq)]
pub struct QueryNode {
    pub limit: Option<u32>,
    pub offset: Option<u32>,
    pub order_by: Option<Vec<OrderByElement>>,
    pub predicate: Option<ResolvedFilterExpression>,
    pub aggregates: Option<Vec<(String, AggregateFieldSelection)>>,
    pub fields: Option<Vec<(String, Field)>>,
    pub group_by: Option<Grouping>,
}

#[derive(Debug, PartialEq)]
pub enum RelationshipType {
    Object,
    Array,
}

#[derive(Debug, PartialEq)]
pub struct Relationship {
    pub column_mapping: Vec<(String, String)>,
    pub relationship_type: RelationshipType,
    pub target_collection: String,
    pub arguments: Vec<(String, RelationshipArgument)>,
}

#[derive(Debug, PartialEq)]
pub struct QueryExecutionPlan {
    pub collection: String,
    pub query_node: QueryNode,
    pub arguments: Vec<(String, Argument)>,
    pub collection_relationships: Vec<(String, Relationship)>,
    pub variables: Option<Vec<Vec<(String, serde_json::Value)>>>,
}

#[derive(Debug, PartialEq)]
pub struct MutationExecutionPlan {
    pub procedure_name: String,
    pub procedure_arguments: Vec<(String, MutationArgument)>,
    pub procedure_fields: Option<NestedField>,
    pub collection_relationships: Vec<(String, Relationship)>,
}

/// A relationship's column mapping and argument template are sorted by name.
pub open spec fn relationship_valid(r: Relationship) -> bool {
    &&& names_sorted(entry_names(r.column_mapping@))
    &&& names_sorted(entry_names(r.arguments@))
}

pub open spec fn relationships_valid(rs: Seq<(String, Relationship)>) -> bool {
    &&& names_sorted(entry_names(rs))
    &&& forall|i: int| 0 <= i < rs.len() ==> relationship_valid(#[trigger] rs[i].1)
}

pub open spec fn variables_valid(variables: Option<Vec<Vec<(String, serde_json::Value)>>>) -> bool {
    match variables {
        Some(batches) => forall|i: int|
            0 <= i < batches@.len() ==> names_sorted(entry_names(#[trigger] batches@[i]@)),
        None => true,
    }
}

/// Selected fields have distinct names, and each is valid.
pub open spec fn fields_valid(fs: Seq<(String, Field)>) -> bool
    decreases fs,
{
    &&& names_unique(entry_names(fs))
    &&& forall|i: int| 0 <= i < fs.len() ==> field_valid(#[trigger] fs[i].1)
}

pub open spec fn field_valid(f: Field) -> bool
    decreases f,
{
    match f {
        Field::Column { fields, arguments, .. } => {
            &&& match fields {
                Some(n) => nested_field_valid(n),
                None => true,
            }
            &&& names_sorted(entry_names(arguments@))
        },
        Field::Relationship { query_node, arguments, .. } => {
            &&& query_node_valid(*query_node)
            &&& names_sorted(entry_names(arguments@))
        },
    }
}

pub open spec fn nested_field_valid(n: NestedField) -> bool
    decreases n,
{
    match n {
        NestedField::Object(o) => fields_valid(o.fields@),
        NestedField::Array(a) => nested_field_valid(*a.fields),
    }
}

pub open spec fn query_node_valid(q: QueryNode) -> bool
    decreases q,
{
    &&& match q.fields {
        Some(fs) => fields_valid(fs@),
        None => true,
    }
    &&& match q.aggregates {
        Some(a) => names_unique(entry_names(a@)),
        None => true,
    }
}

pub open spec fn query_plan_valid(p: QueryExecutionPlan) -> bool {
    &&& query_node_valid(p.query_node)
    &&& names_sorted(entry_names(p.arguments@))
    &&& relationships_valid(p.collection_relationships@)
    &&& variables_valid(p.variables)
}

pub open spec fn mutation_plan_valid(p: MutationExecutionPlan) -> bool {
    &&& names_sorted(entry_names(p.procedure_arguments@))
    &&& match p.procedure_fields {
        Some(n) => nested_field_valid(n),
        None => true,
    }
    &&& relationships_valid(p.collection_relationships@)
}

} // verus!
