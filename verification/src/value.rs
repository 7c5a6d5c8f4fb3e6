//! Cells: typed, nullable scalar values.
use vstd::prelude::*;

verus! {

/// The scalar data types an array can carry.
#[derive(Clone, Copy, PartialEq, Eq, Structural, Debug)]
pub enum DType {
    Int64,
    UInt64,
    /// Double precision; cells of this type hold the IEEE 754 bit pattern.
    Float64,
    Boolean,
    Str,
}

/// One scalar value.
#[derive(PartialEq, Eq, Debug)]
pub enum Value {
    Int(i64),
    UInt(u64),
    /// A double, held as its IEEE 754 bit pattern.
    Float(u64),
    Bool(bool),
    Str(String),
}

impl Clone for Value {
    /// A cell's clone equals the cell itself.
    fn clone(&self) -> (res: Self)
        ensures
            res == *self,
    {
        match self {
            Value::Int(x) => Value::Int(*x),
            Value::UInt(x) => Value::UInt(*x),
            Value::Float(x) => Value::Float(*x),
            Value::Bool(x) => Value::Bool(*x),
            Value::Str(s) => Value::Str(s.clone()),
        }
    }
}

/// Whether a scalar value belongs to a data type.
pub open spec fn value_has_dtype(v: Value, dt: DType) -> bool {
    match v {
        Value::Int(_) => dt is Int64,
        Value::UInt(_) => dt is UInt64,
        Value::Float(_) => dt is Float64,
        Value::Bool(_) => dt is Boolean,
        Value::Str(_) => dt is Str,
    }
}

/// Whether a nullable cell belongs to a data type (a null belongs to every type).
pub open spec fn cell_has_dtype(c: Option<Value>, dt: DType) -> bool {
    match c {
        None => true,
        Some(v) => value_has_dtype(v, dt),
    }
}

/// Clones one nullable cell, exactly.
pub fn clone_cell(c: &Option<Value>) -> (res: Option<Value>)
    ensures
        res == *c,
{
    match c {
        None => None,
        Some(v) => Some(v.clone()),
    }
}

} // verus!
