//! Hashing of join keys with 64-bit FNV-1a.
//!
//! A key tuple is first laid out as one byte string, its canonical encoding,
//! and the hash is the FNV-1a fold over that string. The encoding depends on
//! the order of the values, so a composite key is hashed by position.

use vstd::prelude::*;
use crate::key_equal::{key_is_free_of_zero, spec_keys_equal, theorem_equal_keys_are_identical};
use crate::value::{ValueModel, ValueRef, key_ref_model};

verus! {

/// The FNV-1a offset basis for 64-bit hashes.
pub const FNV_OFFSET_BASIS: u64 = 0xcbf29ce484222325;

/// The FNV-1a prime for 64-bit hashes.
pub const FNV_PRIME: u64 = 0x100000001b3;

/// One FNV-1a step: xor the byte into the accumulator, then multiply by the
/// prime modulo 2^64.
pub open spec fn fnv1a_step(h: u64, b: u8) -> u64 {
    (((h ^ (b as u64)) as int * (FNV_PRIME as int)) % 0x1_0000_0000_0000_0000) as u64
}

/// The FNV-1a fold of `bytes` into the accumulator `h`, first byte first.
pub open spec fn fnv1a_fold(h: u64, bytes: Seq<u8>) -> u64
    decreases bytes.len(),
{
    if bytes.len() == 0 {
        h
    } else {
        fnv1a_step(fnv1a_fold(h, bytes.drop_last()), bytes.last())
    }
}

/// Byte `k` of `bits`, counted from the least significant one.
pub open spec fn le_byte(bits: u64, k: int) -> u8 {
    ((bits >> ((8 * k) as u64)) & 0xff) as u8
}

/// The eight bytes of `bits`, least significant first.
pub open spec fn le_bytes(bits: u64) -> Seq<u8> {
    Seq::new(8, |k: int| le_byte(bits, k))
}

/// The canonical encoding of one value: a single zero byte for a null, the
/// eight little-endian bytes of the bit pattern for an integer or a float,
/// and the bytes themselves for a text or a blob.
pub open spec fn value_encoding(v: ValueModel) -> Seq<u8> {
    match v {
        ValueModel::Null => seq![0u8],
        ValueModel::Integer(i) => le_bytes(i as u64),
        ValueModel::Float(bits) => le_bytes(bits),
        ValueModel::Text(t) => t,
        ValueModel::Blob(b) => b,
    }
}

/// The canonical encoding of a key tuple: the encodings of its values, one
/// after the other.
pub open spec fn key_encoding(key: Seq<ValueModel>) -> Seq<u8>
    decreases key.len(),
{
    if key.len() == 0 {
        Seq::empty()
    } else {
        key_encoding(key.drop_last()) + value_encoding(key.last())
    }
}

/// The hash of a key tuple.
pub open spec fn spec_hash_join_key(key: Seq<ValueModel>) -> u64 {
    fnv1a_fold(FNV_OFFSET_BASIS, key_encoding(key))
}

/// Folding over a string with one more byte is one more step.
pub proof fn lemma_fold_push(h: u64, bytes: Seq<u8>, b: u8)
    ensures
        fnv1a_fold(h, bytes.push(b)) == fnv1a_step(fnv1a_fold(h, bytes), b),
{
    assert(bytes.push(b).drop_last() =~= bytes);
}

/// Folding over two strings, one after the other, is folding over the second
/// from where the first one ended.
pub proof fn lemma_fold_concat(h: u64, a: Seq<u8>, b: Seq<u8>)
    ensures
        fnv1a_fold(h, a + b) == fnv1a_fold(fnv1a_fold(h, a), b),
    decreases b.len(),
{
    if b.len() == 0 {
        assert(a + b =~= a);
    } else {
        lemma_fold_concat(h, a, b.drop_last());
        assert((a + b).drop_last() =~= a + b.drop_last());
        assert((a + b).last() == b.last());
    }
}

/// Folds one byte into the accumulator.
fn fold_byte(h: u64, b: u8) -> (r: u64)
    ensures
        r == fnv1a_step(h, b),
{
    (h ^ (b as u64)).wrapping_mul(FNV_PRIME)
}

/// Folds a byte string into the accumulator.
fn fold_bytes(h: u64, bytes: &[u8]) -> (r: u64)
    ensures
        r == fnv1a_fold(h, bytes@),
{
    let mut hash: u64 = h;
    let mut i: usize = 0;
    while i < bytes.len()
        invariant
            i <= bytes.len(),
            hash == fnv1a_fold(h, bytes@.subrange(0, i as int)),
        decreases bytes.len() - i,
    {
        proof {
            lemma_fold_push(h, bytes@.subrange(0, i as int), bytes@[i as int]);
            assert(bytes@.subrange(0, i as int).push(bytes@[i as int]) =~= bytes@.subrange(
                0,
                i + 1,
            ));
        }
        hash = fold_byte(hash, bytes[i]);
        i += 1;
    }
    assert(bytes@.subrange(0, i as int) =~= bytes@);
    hash
}

/// Folds the eight little-endian bytes of `bits` into the accumulator.
fn fold_word(h: u64, bits: u64) -> (r: u64)
    ensures
        r == fnv1a_fold(h, le_bytes(bits)),
{
    let mut hash: u64 = h;
    let mut k: u32 = 0;
    while k < 8
        invariant
            k <= 8,
            hash == fnv1a_fold(h, le_bytes(bits).subrange(0, k as int)),
        decreases 8 - k,
    {
        let shifted: u64 = bits >> (8 * k);
        let byte: u8 = #[verifier::truncate]
        ((shifted & 0xff) as u8);
        proof {
            assert(byte == le_byte(bits, k as int));
            lemma_fold_push(h, le_bytes(bits).subrange(0, k as int), byte);
            assert(le_bytes(bits).subrange(0, k as int).push(byte) =~= le_bytes(bits).subrange(
                0,
                k + 1,
            ));
        }
        hash = fold_byte(hash, byte);
        k += 1;
    }
    assert(le_bytes(bits).subrange(0, 8) =~= le_bytes(bits));
    hash
}

/// Folds the canonical encoding of one value into the accumulator.
fn fold_value(h: u64, value: &ValueRef<'_>) -> (r: u64)
    ensures
        r == fnv1a_fold(h, value_encoding(value@)),
{
    match value {
        ValueRef::Null => {
            proof {
                lemma_fold_push(h, Seq::empty(), 0u8);
                assert(Seq::<u8>::empty().push(0u8) =~= seq![0u8]);
            }
            fold_byte(h, 0)
        },
        ValueRef::Integer(i) => fold_word(h, *i as u64),
        ValueRef::Float(bits) => fold_word(h, *bits),
        ValueRef::Text(text) => fold_bytes(h, text),
        ValueRef::Blob(blob) => fold_bytes(h, blob),
    }
}

/// Hashes a key tuple.
///
/// The result is the FNV-1a hash of the tuple's canonical encoding: a function
/// of the tuple alone, sensitive to the order of its values.
pub fn hash_join_key(key_values: &[ValueRef<'_>]) -> (hash: u64)
    ensures
        hash == spec_hash_join_key(key_ref_model(key_values@)),
{
    let ghost key = key_ref_model(key_values@);
    let mut hash: u64 = FNV_OFFSET_BASIS;
    let mut i: usize = 0;
    while i < key_values.len()
        invariant
            i <= key_values.len(),
            key == key_ref_model(key_values@),
            hash == fnv1a_fold(FNV_OFFSET_BASIS, key_encoding(key.subrange(0, i as int))),
        decreases key_values.len() - i,
    {
        proof {
            let prefix = key.subrange(0, i as int);
            let next = key.subrange(0, i + 1);
            assert(next.drop_last() =~= prefix);
            assert(next.last() == key_values@[i as int]@);
            lemma_fold_concat(
                FNV_OFFSET_BASIS,
                key_encoding(prefix),
                value_encoding(key_values@[i as int]@),
            );
        }
        hash = fold_value(hash, &key_values[i]);
        i += 1;
    }
    assert(key.subrange(0, i as int) =~= key);
    hash
}

/// Hashing is a function of the tuple: the same values in the same order
/// always give the same hash, whichever vectors or slices hold them.
pub proof fn theorem_hash_is_deterministic(key1: Seq<ValueRef<'_>>, key2: Seq<ValueRef<'_>>)
    requires
        key1.len() == key2.len(),
        forall|i: int| 0 <= i < key1.len() ==> key1[i]@ == key2[i]@,
    ensures
        spec_hash_join_key(key_ref_model(key1)) == spec_hash_join_key(key_ref_model(key2)),
{
    assert(key_ref_model(key1) =~= key_ref_model(key2));
}

/// Keys that are equal hash alike, unless a float zero is among their values.
pub proof fn theorem_equal_keys_hash_alike(key1: Seq<ValueModel>, key2: Seq<ValueModel>)
    requires
        spec_keys_equal(key1, key2),
        key_is_free_of_zero(key1),
    ensures
        spec_hash_join_key(key1) == spec_hash_join_key(key2),
{
    theorem_equal_keys_are_identical(key1, key2);
}

} // verus!
