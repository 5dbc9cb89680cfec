//! Runtime values.
use vstd::prelude::*;

verus! {

/// A value held in a local or a stack slot.  A pointer is the name of the
/// slot it points to.
#[derive(Debug, Clone, PartialEq)]
pub enum Value {
    I1(bool),
    I32(i32),
    I64(i64),
    Ptr(String),
}

pub enum ValueV {
    I1(bool),
    I32(i32),
    I64(i64),
    Ptr(Seq<char>),
}

impl View for Value {
    type V = ValueV;

    open spec fn view(&self) -> ValueV {
        match self {
            Value::I1(b) => ValueV::I1(*b),
            Value::I32(v) => ValueV::I32(*v),
            Value::I64(v) => ValueV::I64(*v),
            Value::Ptr(s) => ValueV::Ptr(s@),
        }
    }
}

impl Value {
    /// The integer of an `i32` value, or `None` for any other value.
    pub fn as_i32(&self) -> (r: Option<i32>)
        ensures
            r == match self@ {
                ValueV::I32(v) => Some(v),
                _ => None::<i32>,
            },
    {
        match self {
            Value::I32(v) => Some(*v),
            _ => None,
        }
    }

    /// The boolean of an `i1` value, or `None` for any other value.
    pub fn as_i1(&self) -> (r: Option<bool>)
        ensures
            r == match self@ {
                ValueV::I1(b) => Some(b),
                _ => None::<bool>,
            },
    {
        match self {
            Value::I1(b) => Some(*b),
            _ => None,
        }
    }

    /// A copy of the value.
    pub fn copy(&self) -> (r: Value)
        ensures
            r@ == self@,
    {
        match self {
            Value::I1(b) => Value::I1(*b),
            Value::I32(v) => Value::I32(*v),
            Value::I64(v) => Value::I64(*v),
            Value::Ptr(s) => Value::Ptr(s.clone()),
        }
    }
}

/// The unsigned reading of the bits of an `i32`.
pub open spec fn unsigned_bits(x: i32) -> int {
    if x < 0 { x + 0x1_0000_0000 } else { x as int }
}

/// The unsigned reading of the bits of an `i32` (as `x as u32`).
pub fn to_unsigned(x: i32) -> (r: u32)
    ensures
        r == unsigned_bits(x),
{
    if x >= 0 {
        x as u32
    } else {
        let y: i32 = x + 1 + i32::MAX;
        (y as u32) + 0x8000_0000u32
    }
}

} // verus!
