//! The ORC logical type tree. Every node carries the stable `column_index`
//! assigned at schema-flattening time; it keys per-column metadata and stream
//! lookups and never changes after construction.
use vstd::prelude::*;
use std::sync::Arc;

verus! {

/// One ORC logical type node.
///
/// The map variant is spelled `Mapping` here; it is ORC's map type.
#[derive(Debug)]
pub enum DataType {
    Boolean { column_index: usize },
    Byte { column_index: usize },
    Short { column_index: usize },
    Int { column_index: usize },
    Long { column_index: usize },
    Float { column_index: usize },
    Double { column_index: usize },
    String { column_index: usize },
    Varchar { column_index: usize, max_length: u32 },
    Char { column_index: usize, max_length: u32 },
    Binary { column_index: usize },
    Decimal { column_index: usize, precision: u32, scale: u32 },
    Timestamp { column_index: usize },
    TimestampWithLocalTimezone { column_index: usize },
    Date { column_index: usize },
    Struct { column_index: usize, children: Vec<NamedColumn> },
    List { column_index: usize, child: Arc<DataType> },
    Mapping { column_index: usize, key: Arc<DataType>, value: Arc<DataType> },
    Union { column_index: usize, variants: Vec<Arc<DataType>> },
}

/// A named child of a struct type, or a top-level column of the root.
#[derive(Debug)]
pub struct NamedColumn {
    pub name: String,
    pub data_type: Arc<DataType>,
}

/// The root of the schema: the ordered list of top-level columns.
#[derive(Debug)]
pub struct RootDataType {
    pub children: Vec<NamedColumn>,
}

impl RootDataType {
    pub fn children(&self) -> (r: &Vec<NamedColumn>)
        ensures
            r == &self.children,
    {
        &self.children
    }
}

impl DataType {
    pub open spec fn column_index_spec(&self) -> usize {
        match self {
            DataType::Boolean { column_index } => *column_index,
            DataType::Byte { column_index } => *column_index,
            DataType::Short { column_index } => *column_index,
            DataType::Int { column_index } => *column_index,
            DataType::Long { column_index } => *column_index,
            DataType::Float { column_index } => *column_index,
            DataType::Double { column_index } => *column_index,
            DataType::String { column_index } => *column_index,
            DataType::Varchar { column_index, .. } => *column_index,
            DataType::Char { column_index, .. } => *column_index,
            DataType::Binary { column_index } => *column_index,
            DataType::Decimal { column_index, .. } => *column_index,
            DataType::Timestamp { column_index } => *column_index,
            DataType::TimestampWithLocalTimezone { column_index } => *column_index,
            DataType::Date { column_index } => *column_index,
            DataType::Struct { column_index, .. } => *column_index,
            DataType::List { column_index, .. } => *column_index,
            DataType::Mapping { column_index, .. } => *column_index,
            DataType::Union { column_index, .. } => *column_index,
        }
    }

    /// The stable column number of this node.
    pub fn column_index(&self) -> (r: usize)
        ensures
            r == self.column_index_spec(),
    {
        match self {
            DataType::Boolean { column_index } => *column_index,
            DataType::Byte { column_index } => *column_index,
            DataType::Short { column_index } => *column_index,
            DataType::Int { column_index } => *column_index,
            DataType::Long { column_index } => *column_index,
            DataType::Float { column_index } => *column_index,
            DataType::Double { column_index } => *column_index,
            DataType::String { column_index } => *column_index,
            DataType::Varchar { column_index, .. } => *column_index,
            DataType::Char { column_index, .. } => *column_index,
            DataType::Binary { column_index } => *column_index,
            DataType::Decimal { column_index, .. } => *column_index,
            DataType::Timestamp { column_index } => *column_index,
            DataType::TimestampWithLocalTimezone { column_index } => *column_index,
            DataType::Date { column_index } => *column_index,
            DataType::Struct { column_index, .. } => *column_index,
            DataType::List { column_index, .. } => *column_index,
            DataType::Mapping { column_index, .. } => *column_index,
            DataType::Union { column_index, .. } => *column_index,
        }
    }
}

} // verus!
