//! Typed scalar values: the only kind of datum a join key is made of.
//!
//! A value exists in an owned form ([`Value`]) and a borrowed form
//! ([`ValueRef`]). Both are viewed as the same mathematical object,
//! [`ValueModel`], and every contract of this crate is stated over that view.
//!
//! A float is held as its 64-bit IEEE 754 bit pattern, so that hashing and
//! equality are exact integer computations.

use vstd::prelude::*;

verus! {

/// The mathematical content of a scalar value.
pub enum ValueModel {
    Null,
    Integer(i64),
    /// The IEEE 754 bit pattern of a 64-bit float.
    Float(u64),
    Text(Seq<u8>),
    Blob(Seq<u8>),
}

/// An owned scalar value.
#[derive(Debug)]
pub enum Value {
    Null,
    Integer(i64),
    /// The IEEE 754 bit pattern of a 64-bit float.
    Float(u64),
    Text(Vec<u8>),
    Blob(Vec<u8>),
}

/// A borrowed scalar value: the same tags as [`Value`], without ownership of
/// the bytes of a text or a blob.
#[derive(Debug, Clone, Copy)]
pub enum ValueRef<'a> {
    Null,
    Integer(i64),
    /// The IEEE 754 bit pattern of a 64-bit float.
    Float(u64),
    Text(&'a [u8]),
    Blob(&'a [u8]),
}

impl View for Value {
    type V = ValueModel;

    open spec fn view(&self) -> ValueModel {
        match *self {
            Value::Null => ValueModel::Null,
            Value::Integer(i) => ValueModel::Integer(i),
            Value::Float(bits) => ValueModel::Float(bits),
            Value::Text(t) => ValueModel::Text(t@),
            Value::Blob(b) => ValueModel::Blob(b@),
        }
    }
}

impl<'a> View for ValueRef<'a> {
    type V = ValueModel;

    open spec fn view(&self) -> ValueModel {
        match *self {
            ValueRef::Null => ValueModel::Null,
            ValueRef::Integer(i) => ValueModel::Integer(i),
            ValueRef::Float(bits) => ValueModel::Float(bits),
            ValueRef::Text(t) => ValueModel::Text(t@),
            ValueRef::Blob(b) => ValueModel::Blob(b@),
        }
    }
}

/// The key tuple that a sequence of owned values stands for.
pub open spec fn key_model(values: Seq<Value>) -> Seq<ValueModel> {
    Seq::new(values.len(), |i: int| values[i]@)
}

/// The key tuple that a sequence of borrowed values stands for.
pub open spec fn key_ref_model(values: Seq<ValueRef<'_>>) -> Seq<ValueModel> {
    Seq::new(values.len(), |i: int| values[i]@)
}

impl Clone for Value {
    fn clone(&self) -> (r: Self)
        ensures
            r@ == self@,
    {
        match self {
            Value::Null => Value::Null,
            Value::Integer(i) => Value::Integer(*i),
            Value::Float(bits) => Value::Float(*bits),
            Value::Text(t) => {
                let copy = t.clone();
                assert(copy@ =~= t@);
                Value::Text(copy)
            },
            Value::Blob(b) => {
                let copy = b.clone();
                assert(copy@ =~= b@);
                Value::Blob(copy)
            },
        }
    }
}

impl Value {
    /// Borrows this value.
    pub fn as_ref(&self) -> (r: ValueRef<'_>)
        ensures
            r@ == self@,
    {
        match self {
            Value::Null => ValueRef::Null,
            Value::Integer(i) => ValueRef::Integer(*i),
            Value::Float(bits) => ValueRef::Float(*bits),
            Value::Text(t) => ValueRef::Text(t.as_slice()),
            Value::Blob(b) => ValueRef::Blob(b.as_slice()),
        }
    }
}

/// Borrows every value of a key tuple, in order.
pub fn key_refs(values: &Vec<Value>) -> (r: Vec<ValueRef<'_>>)
    ensures
        key_ref_model(r@) == key_model(values@),
{
    let mut refs: Vec<ValueRef<'_>> = Vec::new();
    let mut i: usize = 0;
    while i < values.len()
        invariant
            i <= values.len(),
            refs.len() == i,
            forall|j: int| 0 <= j < i ==> refs[j]@ == values[j]@,
        decreases values.len() - i,
    {
        refs.push(values[i].as_ref());
        i += 1;
    }
    assert(key_ref_model(refs@) =~= key_model(values@));
    refs
}

} // verus!
