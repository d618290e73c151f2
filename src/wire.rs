//! The request as the v0.1 data-connector protocol receives it.
//!
//! Maps whose order the protocol observes (fields, aggregates) keep their
//! entries in selection order; the others (arguments, relationships, column
//! mappings) hold them sorted by name. The predicates below state both.
use vstd::prelude::*;

use crate::{entry_names, names_sorted, names_unique};

verus! {

#[derive(Debug, PartialEq)]
pub enum ComparisonTarget {
    Column { name: String, field_path: Option<Vec<String>>, path: Vec<PathElement> },
}

#[derive(Debug, PartialEq)]
pub enum ComparisonValue {
    Scalar { value: serde_json::Value },
    Variable { name: String },
}

#[derive(Debug, PartialEq)]
pub enum UnaryComparisonOperator {
    IsNull,
}

/// Where an existence check looks for rows.
#[derive(Debug, PartialEq)]
pub enum ExistsInCollection {
    Related { relationship: String, arguments: Vec<(String, RelationshipArgument)> },
    NestedCollection {
        column_name: String,
        field_path: Vec<String>,
        arguments: Vec<(String, Argument)>,
    },
}

#[derive(Debug, PartialEq)]
pub enum Expression {
    And { expressions: Vec<Expression> },
    Or { expressions: Vec<Expression> },
    Not { expression: Box<Expression> },
    UnaryComparisonOperator { column: ComparisonTarget, operator: UnaryComparisonOperator },
    BinaryComparisonOperator { column: ComparisonTarget, operator: String, value: ComparisonValue },
    Exists { in_collection: ExistsInCollection, predicate: Option<Box<Expression>> },
}

/// The value of a literal argument: a JSON document given as one, or a
/// translated filter expression that stands for its JSON encoding. The
/// protocol has no argument kind for predicates, so they travel as literals.
/// No JSON is produced here: the expression is held as it is.
#[derive(Debug, PartialEq)]
pub enum LiteralValue {
    Json(serde_json::Value),
    EncodedExpression(Box<Expression>),
}

#[derive(Debug, PartialEq)]
pub enum Argument {
    Variable { name: String },
    Literal { value: LiteralValue },
}

#[derive(Debug, PartialEq)]
pub enum RelationshipArgument {
    Variable { name: String },
    Literal { value: LiteralValue },
    Column { name: String },
}

#[derive(Debug, PartialEq)]
pub enum Field {
    Column {
        column: String,
        fields: Option<NestedField>,
        arguments: Vec<(String, Argument)>,
    },
    Relationship {
        query: Box<Query>,
        relationship: String,
        arguments: Vec<(String, RelationshipArgument)>,
    },
}

#[derive(Debug, PartialEq)]
pub enum NestedField {
    Object(NestedObject),
    Array(NestedArray),
}

#[derive(Debug, PartialEq)]
pub struct NestedObject {
    pub fields: Vec<(String, Field)>,
}

#[derive(Debug, PartialEq)]
pub struct NestedArray {
    pub fields: Box<NestedField>,
}

#[derive(Debug, PartialEq)]
pub enum OrderDirection {
    Asc,
    Desc,
}

/// One relationship crossed by an ordering target or a comparison target.
#[derive(Debug, PartialEq)]
pub struct PathElement {
    pub relationship: String,
    pub arguments: Vec<(String, RelationshipArgument)>,
    pub predicate: Option<Box<Expression>>,
}

#[derive(Debug, PartialEq)]
pub enum OrderByTarget {
    Column { name: String, field_path: Option<Vec<String>>, path: Vec<PathElement> },
}

#[derive(Debug, PartialEq)]
pub struct OrderByElement {
    pub order_direction: OrderDirection,
    pub target: OrderByTarget,
}

#[derive(Debug, PartialEq)]
pub struct OrderBy {
    pub elements: Vec<OrderByElement>,
}

#[derive(Debug, PartialEq)]
pub enum Aggregate {
    ColumnCount { column: String, field_path: Option<Vec<String>>, distinct: bool },
    SingleColumn { column: String, field_path: Option<Vec<String>>, function: String },
    StarCount,
}

#[derive(Debug, PartialEq)]
pub struct Query {
    pub aggregates: Option<Vec<(String, Aggregate)>>,
    pub fields: Option<Vec<(String, Field)>>,
    pub limit: Option<u32>,
    pub offset: Option<u32>,
    pub order_by: Option<OrderBy>,
    pub predicate: Option<Expression>,
}

#[derive(Debug, PartialEq)]
pub enum RelationshipType {
    Object,
    Array,
}

#[derive(Debug, PartialEq)]
pub struct Relationship {
    pub column_mapping: Vec<(String, String)>,
    pub relationship_type: RelationshipType,
    pub target_collection: String,
    pub arguments: Vec<(String, RelationshipArgument)>,
}

#[derive(Debug, PartialEq)]
pub struct QueryRequest {
    pub collection: String,
    pub query: Query,
    pub arguments: Vec<(String, Argument)>,
    pub collection_relationships: Vec<(String, Relationship)>,
    pub variables: Option<Vec<Vec<(String, serde_json::Value)>>>,
}

#[derive(Debug, PartialEq)]
pub enum MutationOperation {
    Procedure {
        name: String,
        arguments: Vec<(String, LiteralValue)>,
        fields: Option<NestedField>,
    },
}

#[derive(Debug, PartialEq)]
pub struct MutationRequest {
    pub operations: Vec<MutationOperation>,
    pub collection_relationships: Vec<(String, Relationship)>,
}

pub open spec fn relationship_valid(r: Relationship) -> bool {
    &&& names_sorted(entry_names(r.column_mapping@))
    &&& names_sorted(entry_names(r.arguments@))
}

pub open spec fn relationships_valid(rs: Seq<(String, Relationship)>) -> bool {
    &&& names_sorted(entry_names(rs))
    &&& forall|i: int| 0 <= i < rs.len() ==> relationship_valid(#[trigger] rs[i].1)
}

pub open spec fn fields_valid(fs: Seq<(String, Field)>) -> bool
    decreases fs,
{
    &&& names_unique(entry_names(fs))
    &&& forall|i: int| 0 <= i < fs.len() ==> field_valid(#[trigger] fs[i].1)
}

pub open spec fn field_valid(f: Field) -> bool
    decreases f,
{
    match f {
        Field::Column { fields, arguments, .. } => {
            &&& match fields {
                Some(n) => nested_field_valid(n),
                None => true,
            }
            &&& names_sorted(entry_names(arguments@))
        },
        Field::Relationship { query, arguments, .. } => {
            &&& query_valid(*query)
            &&& names_sorted(entry_names(arguments@))
        },
    }
}

pub open spec fn nested_field_valid(n: NestedField) -> bool
    decreases n,
{
    match n {
        NestedField::Object(o) => fields_valid(o.fields@),
        NestedField::Array(a) => nested_field_valid(*a.fields),
    }
}

/// Selected fields and aggregates have distinct names; every argument map
/// below them is sorted by name.
pub open spec fn query_valid(q: Query) -> bool
    decreases q,
{
    &&& match q.fields {
        Some(fs) => fields_valid(fs@),
        None => true,
    }
    &&& match q.aggregates {
        Some(a) => names_unique(entry_names(a@)),
        None => true,
    }
}

pub open spec fn query_request_valid(r: QueryRequest) -> bool {
    &&& query_valid(r.query)
    &&& names_sorted(entry_names(r.arguments@))
    &&& relationships_valid(r.collection_relationships@)
    &&& match r.variables {
        Some(batches) => forall|i: int|
            0 <= i < batches@.len() ==> names_sorted(entry_names(#[trigger] batches@[i]@)),
        None => true,
    }
}

pub open spec fn mutation_request_valid(r: MutationRequest) -> bool {
    &&& forall|i: int|
        0 <= i < r.operations@.len() ==> match #[trigger] r.operations@[i] {
            MutationOperation::Procedure { arguments, fields, .. } => {
                &&& names_sorted(entry_names(arguments@))
                &&& match fields {
                    Some(n) => nested_field_valid(n),
                    None => true,
                }
            },
        }
    &&& relationships_valid(r.collection_relationships@)
}

} // verus!
