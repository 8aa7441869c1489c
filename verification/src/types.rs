//! Identifiers and column data model shared by the routing pipeline.

use vstd::prelude::*;

verus! {

/// Identifier of one shard (one ordered partition of the append-only log).
#[derive(Clone, Copy, Debug, PartialEq, Eq, Structural, Hash)]
pub struct ShardId {
    pub value: u32,
}

/// Identifier of the log topic the router writes to.
#[derive(Clone, Copy, Debug, PartialEq, Eq, Structural, Hash)]
pub struct TopicId {
    pub value: i64,
}

/// Identifier of the query pool a namespace is served from.
#[derive(Clone, Copy, Debug, PartialEq, Eq, Structural, Hash)]
pub struct QueryPoolId {
    pub value: i64,
}

/// Identifier of a namespace in the catalog.
#[derive(Clone, Copy, Debug, PartialEq, Eq, Structural, Hash)]
pub struct NamespaceId {
    pub value: i64,
}

/// Identifier of a table in the catalog.
#[derive(Clone, Copy, Debug, PartialEq, Eq, Structural, Hash)]
pub struct TableId {
    pub value: i64,
}

/// Identifier of a column in the catalog.
#[derive(Clone, Copy, Debug, PartialEq, Eq, Structural, Hash)]
pub struct ColumnId {
    pub value: i64,
}

/// Position assigned to an enqueued write within its shard's log.
#[derive(Clone, Copy, Debug, PartialEq, Eq, Structural, Hash)]
pub struct SequenceNumber {
    pub value: u64,
}

/// Logical type of a column. Schema only grows: a column keeps the
/// type it was first accepted with.
#[derive(Clone, Copy, Debug, PartialEq, Eq, Structural, Hash)]
pub enum ColumnType {
    /// Dictionary-encoded string column used as a series key part.
    Tag,
    /// Boolean field column.
    Bool,
    /// Signed 64-bit integer field column.
    Int,
    /// Unsigned 64-bit integer field column.
    UInt,
    /// 64-bit IEEE-754 field column; the router never inspects the
    /// numeric value and carries it as its raw bit pattern.
    Float,
    /// UTF-8 string field column.
    Text,
}

/// A (name, logical type) pair: one column of a table's schema.
#[derive(Clone, Debug)]
pub struct Column {
    pub name: String,
    pub column_type: ColumnType,
}

/// One value carried by a row, tagged with its inferred column type.
#[derive(Clone, Debug)]
pub enum FieldValue {
    Tag(String),
    Bool(bool),
    Int(i64),
    UInt(u64),
    /// Raw IEEE-754 bit pattern of a 64-bit float value.
    Float(u64),
    Text(String),
}

/// One named, typed value of a row.
#[derive(Clone, Debug)]
pub struct Field {
    pub name: String,
    pub value: FieldValue,
}

/// One row of a write: a timestamp and its named field and tag values.
#[derive(Clone, Debug)]
pub struct Row {
    /// Timestamp in nanoseconds.
    pub time: i64,
    pub fields: Vec<Field>,
}

impl FieldValue {
    /// Column type implied by this value.
    pub open spec fn spec_column_type(&self) -> ColumnType {
        match self {
            FieldValue::Tag(_) => ColumnType::Tag,
            FieldValue::Bool(_) => ColumnType::Bool,
            FieldValue::Int(_) => ColumnType::Int,
            FieldValue::UInt(_) => ColumnType::UInt,
            FieldValue::Float(_) => ColumnType::Float,
            FieldValue::Text(_) => ColumnType::Text,
        }
    }

    /// Column type implied by this value.
    #[verifier::when_used_as_spec(spec_column_type)]
    pub fn column_type(&self) -> (t: ColumnType)
        ensures
            t == self.spec_column_type(),
    {
        match self {
            FieldValue::Tag(_) => ColumnType::Tag,
            FieldValue::Bool(_) => ColumnType::Bool,
            FieldValue::Int(_) => ColumnType::Int,
            FieldValue::UInt(_) => ColumnType::UInt,
            FieldValue::Float(_) => ColumnType::Float,
            FieldValue::Text(_) => ColumnType::Text,
        }
    }
}

} // verus!
