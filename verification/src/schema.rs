//! Table schemas.

use vstd::prelude::*;

verus! {

/// A type without parts.
#[derive(Clone, Copy, Debug, PartialEq, Eq, Structural)]
pub enum PrimitiveType {
    Boolean,
    Int,
    Long,
    Float,
    Double,
    Decimal { precision: u32, scale: u32 },
    Date,
    Time,
    Timestamp,
    Timestamptz,
    TimestampNs,
    TimestamptzNs,
    String,
    Uuid,
    Fixed(u64),
    Binary,
}

/// A value of a primitive type.
#[derive(Clone, Debug, PartialEq, Eq)]
pub enum Literal {
    Boolean(bool),
    Int(i32),
    Long(i64),
    /// The bits of the number.
    Float(u32),
    /// The bits of the number.
    Double(u64),
    String(String),
    Binary(Vec<u8>),
    Int128(i128),
    UInt128(u128),
}

/// The type of a field.
#[derive(Debug, PartialEq, Eq)]
pub enum Type {
    Primitive(PrimitiveType),
    Struct(Vec<NestedField>),
    /// A list of the given element.
    List(Box<NestedField>),
    /// A map from the first field to the second.
    KeyValue(Box<NestedField>, Box<NestedField>),
}

/// A field: a column of a table, or a part of a nested type.
#[derive(Debug, PartialEq, Eq)]
pub struct NestedField {
    pub id: i32,
    pub name: String,
    /// Whether every row has a value for the field.
    pub required: bool,
    pub field_type: Type,
    pub doc: Option<String>,
    /// The value of the field in rows that were written before the field was added.
    pub initial_default: Option<Literal>,
    /// The value of the field in new rows that give none.
    pub write_default: Option<Literal>,
}

impl NestedField {
    /// A field that every row has a value for.
    pub fn required(id: i32, name: &str, field_type: Type) -> (field: NestedField)
        ensures
            field.id == id,
            field.name@ == name@,
            field.required,
            field.field_type == field_type,
            field.doc is None,
            field.initial_default is None,
            field.write_default is None,
    {
        NestedField {
            id,
            name: name.to_owned(),
            required: true,
            field_type,
            doc: None,
            initial_default: None,
            write_default: None,
        }
    }
}

/// The schema of a table.
#[derive(Debug, PartialEq, Eq)]
pub struct Schema {
    pub schema_id: i32,
    /// The columns of the table.
    pub fields: Vec<NestedField>,
    /// The columns that identify a row.
    pub identifier_field_ids: Vec<i32>,
}

} // verus!
