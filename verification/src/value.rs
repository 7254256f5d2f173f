//! The closed set of scalar values a flattened field can carry, and the type
//! tags that describe a record's shape.

use vstd::prelude::*;

verus! {

/// The type tag of a [`Value`]: what a field's shape contributes to a
/// record's fingerprint and to its schema.
#[derive(Clone, Copy, Debug, PartialEq, Eq, Structural, Hash)]
pub enum Ty {
    Signed,
    Unsigned,
    Float,
    Bytes,
    Str,
    Bool,
    Absent,
}

/// A scalar value held by one flattened field.
///
/// Floats are carried as their raw 64-bit pattern: the engine below has no
/// native float column, and the bit pattern is what is stored.
#[derive(Clone, Debug, PartialEq)]
pub enum Value {
    Signed(i64),
    Unsigned(u64),
    Float(u64),
    Bytes(Vec<u8>),
    Str(String),
    Bool(bool),
    Absent,
}

/// The mathematical shape of a [`Value`]: payloads as sequences.
pub enum ValueV {
    Signed(i64),
    Unsigned(u64),
    Float(u64),
    Bytes(Seq<u8>),
    Str(Seq<char>),
    Bool(bool),
    Absent,
}

impl View for Value {
    type V = ValueV;

    open spec fn view(&self) -> ValueV {
        match self {
            Value::Signed(v) => ValueV::Signed(*v),
            Value::Unsigned(v) => ValueV::Unsigned(*v),
            Value::Float(v) => ValueV::Float(*v),
            Value::Bytes(v) => ValueV::Bytes(v@),
            Value::Str(v) => ValueV::Str(v@),
            Value::Bool(v) => ValueV::Bool(*v),
            Value::Absent => ValueV::Absent,
        }
    }
}

impl ValueV {
    /// The type tag of a value's shape.
    pub open spec fn ty(self) -> Ty {
        match self {
            ValueV::Signed(_) => Ty::Signed,
            ValueV::Unsigned(_) => Ty::Unsigned,
            ValueV::Float(_) => Ty::Float,
            ValueV::Bytes(_) => Ty::Bytes,
            ValueV::Str(_) => Ty::Str,
            ValueV::Bool(_) => Ty::Bool,
            ValueV::Absent => Ty::Absent,
        }
    }
}

impl Value {
    /// The type tag of this value.
    pub fn ty(&self) -> (t: Ty)
        ensures
            t == self@.ty(),
    {
        match self {
            Value::Signed(_) => Ty::Signed,
            Value::Unsigned(_) => Ty::Unsigned,
            Value::Float(_) => Ty::Float,
            Value::Bytes(_) => Ty::Bytes,
            Value::Str(_) => Ty::Str,
            Value::Bool(_) => Ty::Bool,
            Value::Absent => Ty::Absent,
        }
    }
}

/// Copies a byte buffer.
pub fn clone_bytes(v: &Vec<u8>) -> (r: Vec<u8>)
    ensures
        r@ == v@,
{
    let mut r: Vec<u8> = Vec::new();
    let mut i: usize = 0;
    while i < v.len()
        invariant
            i <= v.len(),
            r@ == v@.take(i as int),
        decreases v.len() - i,
    {
        r.push(v[i]);
        proof {
            assert(r@ =~= v@.take(i as int + 1));
        }
        i += 1;
    }
    proof {
        assert(v@.take(v@.len() as int) =~= v@);
    }
    r
}

} // verus!
