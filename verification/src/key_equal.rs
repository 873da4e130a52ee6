//! Equality of join keys.
//!
//! Two key tuples are equal when they have the same length and their values
//! are equal position by position. Values of different types are never equal;
//! two nulls are equal; floats compare as IEEE 754 prescribes, so that a NaN
//! equals nothing and the two zeros equal each other.

use vstd::prelude::*;
use crate::value::{Value, ValueModel, ValueRef, key_model, key_ref_model};

verus! {

/// All bits of a 64-bit float but its sign.
pub const FLOAT_MAGNITUDE_MASK: u64 = 0x7fff_ffff_ffff_ffff;

/// The magnitude bits of an infinity: every exponent bit set, no fraction bit.
pub const FLOAT_INFINITY_BITS: u64 = 0x7ff0_0000_0000_0000;

/// Whether `bits` is the bit pattern of a NaN.
pub open spec fn float_is_nan(bits: u64) -> bool {
    bits & FLOAT_MAGNITUDE_MASK > FLOAT_INFINITY_BITS
}

/// Whether `bits` is the bit pattern of a zero, positive or negative.
pub open spec fn float_is_zero(bits: u64) -> bool {
    bits & FLOAT_MAGNITUDE_MASK == 0
}

/// IEEE 754 equality of two floats given by their bit patterns.
pub open spec fn spec_floats_equal(a: u64, b: u64) -> bool {
    &&& !float_is_nan(a)
    &&& !float_is_nan(b)
    &&& (a == b || (float_is_zero(a) && float_is_zero(b)))
}

/// Equality of two values.
pub open spec fn spec_values_equal(v1: ValueModel, v2: ValueModel) -> bool {
    match (v1, v2) {
        (ValueModel::Null, ValueModel::Null) => true,
        (ValueModel::Integer(i1), ValueModel::Integer(i2)) => i1 == i2,
        (ValueModel::Float(f1), ValueModel::Float(f2)) => spec_floats_equal(f1, f2),
        (ValueModel::Text(t1), ValueModel::Text(t2)) => t1 == t2,
        (ValueModel::Blob(b1), ValueModel::Blob(b2)) => b1 == b2,
        _ => false,
    }
}

/// Equality of two key tuples: the same length, and equal values at every
/// position.
pub open spec fn spec_keys_equal(key1: Seq<ValueModel>, key2: Seq<ValueModel>) -> bool {
    &&& key1.len() == key2.len()
    &&& forall|i: int| 0 <= i < key1.len() ==> spec_values_equal(#[trigger] key1[i], key2[i])
}

/// Decides IEEE 754 equality of two floats given by their bit patterns.
pub fn floats_equal(a: u64, b: u64) -> (r: bool)
    ensures
        r == spec_floats_equal(a, b),
{
    let magnitude_a: u64 = a & FLOAT_MAGNITUDE_MASK;
    let magnitude_b: u64 = b & FLOAT_MAGNITUDE_MASK;
    if magnitude_a > FLOAT_INFINITY_BITS || magnitude_b > FLOAT_INFINITY_BITS {
        false
    } else {
        a == b || (magnitude_a == 0 && magnitude_b == 0)
    }
}

/// Decides whether two byte strings hold the same bytes.
pub fn bytes_equal(a: &[u8], b: &[u8]) -> (r: bool)
    ensures
        r == (a@ == b@),
{
    if a.len() != b.len() {
        return false;
    }
    let mut i: usize = 0;
    while i < a.len()
        invariant
            i <= a.len(),
            a.len() == b.len(),
            forall|j: int| 0 <= j < i ==> a@[j] == b@[j],
        decreases a.len() - i,
    {
        if a[i] != b[i] {
            return false;
        }
        i += 1;
    }
    assert(a@ =~= b@);
    true
}

/// Check if two values are equal.
pub fn values_equal(v1: ValueRef<'_>, v2: ValueRef<'_>) -> (r: bool)
    ensures
        r == spec_values_equal(v1@, v2@),
{
    match (v1, v2) {
        (ValueRef::Null, ValueRef::Null) => true,
        (ValueRef::Integer(i1), ValueRef::Integer(i2)) => i1 == i2,
        (ValueRef::Float(f1), ValueRef::Float(f2)) => floats_equal(f1, f2),
        (ValueRef::Text(t1), ValueRef::Text(t2)) => bytes_equal(t1, t2),
        (ValueRef::Blob(b1), ValueRef::Blob(b2)) => bytes_equal(b1, b2),
        _ => false,
    }
}

/// Check if two key value arrays are equal.
pub fn keys_equal(key1: &[Value], key2: &[ValueRef<'_>]) -> (r: bool)
    ensures
        r == spec_keys_equal(key_model(key1@), key_ref_model(key2@)),
{
    if key1.len() != key2.len() {
        return false;
    }
    let mut i: usize = 0;
    while i < key1.len()
        invariant
            i <= key1.len(),
            key1.len() == key2.len(),
            forall|j: int|
                0 <= j < i ==> spec_values_equal(
                    #[trigger] key_model(key1@)[j],
                    key_ref_model(key2@)[j],
                ),
        decreases key1.len() - i,
    {
        if !values_equal(key1[i].as_ref(), key2[i]) {
            assert(!spec_values_equal(key_model(key1@)[i as int], key_ref_model(key2@)[i as int]));
            return false;
        }
        i += 1;
    }
    true
}

/// Whether no value of the key is a NaN.
pub open spec fn key_is_free_of_nan(key: Seq<ValueModel>) -> bool {
    forall|i: int|
        0 <= i < key.len() ==> !(#[trigger] key[i] matches ValueModel::Float(bits) && float_is_nan(
            bits,
        ))
}

/// Whether no value of the key is a float zero.
pub open spec fn key_is_free_of_zero(key: Seq<ValueModel>) -> bool {
    forall|i: int|
        0 <= i < key.len() ==> !(#[trigger] key[i] matches ValueModel::Float(bits)
            && float_is_zero(bits))
}

/// A key equals itself, unless it holds a NaN.
pub proof fn theorem_key_equals_itself(key: Seq<ValueModel>)
    ensures
        spec_keys_equal(key, key) <==> key_is_free_of_nan(key),
{
    if key_is_free_of_nan(key) {
        assert forall|i: int| 0 <= i < key.len() implies spec_values_equal(
            #[trigger] key[i],
            key[i],
        ) by {
            assert(!(key[i] matches ValueModel::Float(bits) && float_is_nan(bits)));
        }
    }
    if spec_keys_equal(key, key) {
        assert forall|i: int| 0 <= i < key.len() implies !(#[trigger] key[i] matches ValueModel::Float(
            bits,
        ) && float_is_nan(bits)) by {
            assert(spec_values_equal(key[i], key[i]));
        }
    }
}

/// Equality of keys is symmetric.
pub proof fn theorem_keys_equal_symmetric(key1: Seq<ValueModel>, key2: Seq<ValueModel>)
    ensures
        spec_keys_equal(key1, key2) == spec_keys_equal(key2, key1),
{
    if spec_keys_equal(key1, key2) {
        assert forall|i: int| 0 <= i < key2.len() implies spec_values_equal(
            #[trigger] key2[i],
            key1[i],
        ) by {
            assert(spec_values_equal(key1[i], key2[i]));
        }
    }
    if spec_keys_equal(key2, key1) {
        assert forall|i: int| 0 <= i < key1.len() implies spec_values_equal(
            #[trigger] key1[i],
            key2[i],
        ) by {
            assert(spec_values_equal(key2[i], key1[i]));
        }
    }
}

/// Two equal keys are the same tuple, unless a float zero is among their
/// values: the two zeros are equal floats with different bit patterns. So
/// two different tuples are told apart by equality, whatever their hashes.
pub proof fn theorem_equal_keys_are_identical(key1: Seq<ValueModel>, key2: Seq<ValueModel>)
    requires
        spec_keys_equal(key1, key2),
        key_is_free_of_zero(key1),
    ensures
        key1 == key2,
{
    assert forall|i: int| 0 <= i < key1.len() implies key1[i] == key2[i] by {
        assert(spec_values_equal(key1[i], key2[i]));
        assert(!(key1[i] matches ValueModel::Float(bits) && float_is_zero(bits)));
    }
    assert(key1 =~= key2);
}

} // verus!
