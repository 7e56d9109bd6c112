//! The output field tree: the Arrow-compatible shape the caller wants data
//! materialized into. It must be structurally congruent with the logical
//! schema or decoding fails before any bytes are read.
use vstd::prelude::*;
use std::sync::Arc;

verus! {

/// One output field: a name, a type and whether values may be null.
#[derive(Debug)]
pub struct Field {
    pub name: String,
    pub data_type: FieldType,
    pub nullable: bool,
}

/// The type of an output field.
///
/// The map variant is spelled `Mapping`: its entries field must be a two-field
/// struct (key, value), and `sorted` mirrors the output format's sorted-map flag.
#[derive(Debug)]
pub enum FieldType {
    Boolean,
    Int8,
    Int16,
    Int32,
    Int64,
    Float32,
    Float64,
    Utf8,
    Binary,
    Decimal128 { precision: u32, scale: u32 },
    Date32,
    Timestamp,
    Struct { fields: Vec<Arc<Field>> },
    List { field: Arc<Field> },
    Mapping { entries: Arc<Field>, sorted: bool },
    Union { fields: Vec<UnionField> },
}

/// One variant of an output union field, carrying its ordinal type id.
#[derive(Debug)]
pub struct UnionField {
    pub type_id: usize,
    pub field: Arc<Field>,
}

} // verus!
