//! What the index stores: entries, and the chains they are kept in.

use vstd::prelude::*;
use crate::key_equal::{keys_equal, spec_keys_equal};
use crate::value::{Value, ValueModel, ValueRef, key_model, key_ref_model};

verus! {

/// The number of bytes accounted for the hash that an entry caches.
pub const HASH_FOOTPRINT: usize = 8;

/// An encoded row. The index never looks inside it: it only keeps the payload
/// and accounts for its length.
#[derive(Debug)]
pub struct ImmutableRecord {
    payload: Vec<u8>,
}

impl View for ImmutableRecord {
    type V = Seq<u8>;

    closed spec fn view(&self) -> Seq<u8> {
        self.payload@
    }
}

impl Clone for ImmutableRecord {
    fn clone(&self) -> (r: Self)
        ensures
            r@ == self@,
    {
        let payload = self.payload.clone();
        assert(payload@ =~= self.payload@);
        ImmutableRecord { payload }
    }
}

impl ImmutableRecord {
    /// Wraps an encoded payload.
    pub fn from_payload(payload: Vec<u8>) -> (r: Self)
        ensures
            r@ == payload@,
    {
        ImmutableRecord { payload }
    }

    /// The encoded payload.
    pub fn get_payload(&self) -> (r: &[u8])
        ensures
            r@ == self@,
    {
        self.payload.as_slice()
    }

    /// The length of the encoded payload in bytes.
    pub fn len(&self) -> (r: usize)
        ensures
            r == self@.len(),
    {
        self.payload.len()
    }
}

/// The mathematical content of an entry.
pub struct EntryModel {
    pub hash: u64,
    pub key: Seq<ValueModel>,
    pub row: Seq<u8>,
}

/// The bytes accounted for one key value: 1 for a null, 8 for an integer or a
/// float, the byte length for a text or a blob.
pub open spec fn value_footprint(v: ValueModel) -> nat {
    match v {
        ValueModel::Null => 1,
        ValueModel::Integer(_) => 8,
        ValueModel::Float(_) => 8,
        ValueModel::Text(t) => t.len(),
        ValueModel::Blob(b) => b.len(),
    }
}

/// The bytes accounted for a key tuple: the sum over its values.
pub open spec fn key_footprint(key: Seq<ValueModel>) -> nat
    decreases key.len(),
{
    if key.len() == 0 {
        0
    } else {
        key_footprint(key.drop_last()) + value_footprint(key.last())
    }
}

/// The bytes accounted for an entry: its key, its row payload, and eight
/// bytes for the cached hash.
pub open spec fn entry_size(e: EntryModel) -> nat {
    key_footprint(e.key) + e.row.len() + 8
}

/// The bytes accounted for a chain of entries: the sum over its entries.
pub open spec fn chain_size(chain: Seq<EntryModel>) -> nat
    decreases chain.len(),
{
    if chain.len() == 0 {
        0
    } else {
        chain_size(chain.drop_last()) + entry_size(chain.last())
    }
}

/// Whether an entry answers a probe: its cached hash is the probe's hash, and
/// its key equals the probe's key. The hash alone never decides.
pub open spec fn entry_matches(e: EntryModel, hash: u64, probe_key: Seq<ValueModel>) -> bool {
    e.hash == hash && spec_keys_equal(e.key, probe_key)
}

/// A single entry in a hash table bucket.
#[derive(Debug)]
pub struct HashEntry {
    /// Hash value of the join keys.
    pub hash: u64,
    /// The join key values.
    pub key_values: Vec<Value>,
    /// The full row data.
    pub row_data: ImmutableRecord,
}

impl View for HashEntry {
    type V = EntryModel;

    open spec fn view(&self) -> EntryModel {
        EntryModel { hash: self.hash, key: key_model(self.key_values@), row: self.row_data@ }
    }
}

/// Adds up the footprints of the values of a key, as far as the sum fits.
fn checked_key_footprint(key_values: &Vec<Value>) -> (r: Option<usize>)
    ensures
        match r {
            Some(n) => n == key_footprint(key_model(key_values@)),
            None => key_footprint(key_model(key_values@)) > usize::MAX,
        },
{
    let ghost key = key_model(key_values@);
    let mut total: usize = 0;
    let mut i: usize = 0;
    while i < key_values.len()
        invariant
            i <= key_values.len(),
            key == key_model(key_values@),
            total == key_footprint(key.subrange(0, i as int)),
        decreases key_values.len() - i,
    {
        let footprint: usize = match &key_values[i] {
            Value::Null => 1,
            Value::Integer(_) => 8,
            Value::Float(_) => 8,
            Value::Text(t) => t.len(),
            Value::Blob(b) => b.len(),
        };
        proof {
            assert(key.subrange(0, i + 1).drop_last() =~= key.subrange(0, i as int));
            assert(key.subrange(0, i + 1).last() == key_values@[i as int]@);
            assert(footprint == value_footprint(key_values@[i as int]@));
            lemma_key_footprint_prefix(key, i + 1);
        }
        match total.checked_add(footprint) {
            Some(sum) => {
                total = sum;
            },
            None => {
                return None;
            },
        }
        i += 1;
    }
    assert(key.subrange(0, i as int) =~= key);
    Some(total)
}

/// A prefix of a key weighs no more than the whole key.
pub proof fn lemma_key_footprint_prefix(key: Seq<ValueModel>, n: int)
    requires
        0 <= n <= key.len(),
    ensures
        key_footprint(key.subrange(0, n)) <= key_footprint(key),
    decreases key.len(),
{
    if n == key.len() {
        assert(key.subrange(0, n) =~= key);
    } else {
        lemma_key_footprint_prefix(key.drop_last(), n);
        assert(key.drop_last().subrange(0, n) =~= key.subrange(0, n));
    }
}

impl Clone for HashEntry {
    fn clone(&self) -> (r: Self)
        ensures
            r@ == self@,
    {
        let mut key_values: Vec<Value> = Vec::new();
        let mut i: usize = 0;
        while i < self.key_values.len()
            invariant
                i <= self.key_values.len(),
                key_values.len() == i,
                forall|j: int| 0 <= j < i ==> key_values[j]@ == self.key_values[j]@,
            decreases self.key_values.len() - i,
        {
            key_values.push(self.key_values[i].clone());
            i += 1;
        }
        assert(key_model(key_values@) =~= key_model(self.key_values@));
        HashEntry { hash: self.hash, key_values, row_data: self.row_data.clone() }
    }
}

impl HashEntry {
    /// Makes an entry of a hash, a key and a row.
    pub fn new(hash: u64, key_values: Vec<Value>, row_data: ImmutableRecord) -> (r: Self)
        ensures
            r.hash == hash,
            r.key_values == key_values,
            r.row_data == row_data,
    {
        Self { hash, key_values, row_data }
    }

    /// The size of this entry in bytes, as accounted for against the memory
    /// budget, or `None` where that size is more than a `usize` holds.
    pub fn checked_size_bytes(&self) -> (r: Option<usize>)
        ensures
            match r {
                Some(n) => n == entry_size(self@),
                None => entry_size(self@) > usize::MAX,
            },
    {
        match checked_key_footprint(&self.key_values) {
            Some(key_size) => match key_size.checked_add(self.row_data.len()) {
                Some(with_row) => with_row.checked_add(HASH_FOOTPRINT),
                None => None,
            },
            None => None,
        }
    }

    /// Get the size of this entry in bytes (approximate).
    pub fn size_bytes(&self) -> (r: usize)
        requires
            entry_size(self@) <= usize::MAX,
        ensures
            r == entry_size(self@),
    {
        match self.checked_size_bytes() {
            Some(n) => n,
            None => vstd::pervasive::unreached(),
        }
    }

    /// Decides whether this entry answers a probe with the given hash and key.
    pub fn matches(&self, hash: u64, probe_keys: &[ValueRef<'_>]) -> (r: bool)
        ensures
            r == entry_matches(self@, hash, key_ref_model(probe_keys@)),
    {
        self.hash == hash && keys_equal(self.key_values.as_slice(), probe_keys)
    }
}

/// The entries of a chain that answer a probe, in the order of the chain.
pub open spec fn chain_matches(chain: Seq<EntryModel>, hash: u64, probe_key: Seq<ValueModel>) -> Seq<
    EntryModel,
> {
    chain.filter(|e: EntryModel| entry_matches(e, hash, probe_key))
}

/// A bucket in the hash table. Uses chaining for collision resolution.
#[derive(Debug)]
pub struct HashBucket {
    entries: Vec<HashEntry>,
}

impl View for HashBucket {
    type V = Seq<EntryModel>;

    closed spec fn view(&self) -> Seq<EntryModel> {
        Seq::new(self.entries@.len(), |i: int| self.entries@[i]@)
    }
}

impl HashBucket {
    /// An empty chain.
    pub fn new() -> (r: Self)
        ensures
            r@ == Seq::<EntryModel>::empty(),
    {
        let bucket = Self { entries: Vec::new() };
        assert(bucket@ =~= Seq::<EntryModel>::empty());
        bucket
    }

    /// Appends an entry at the end of the chain.
    pub fn insert(&mut self, entry: HashEntry)
        ensures
            final(self)@ == old(self)@.push(entry@),
    {
        self.entries.push(entry);
        assert(self@ =~= old(self)@.push(entry@));
    }

    /// The number of entries in the chain.
    pub fn len(&self) -> (r: usize)
        ensures
            r == self@.len(),
    {
        self.entries.len()
    }

    /// The entry at position `index` of the chain.
    pub fn get(&self, index: usize) -> (r: &HashEntry)
        requires
            index < self@.len(),
        ensures
            r@ == self@[index as int],
    {
        &self.entries[index]
    }

    /// All entries of the chain that answer a probe with the given hash and
    /// key, in the order in which they were inserted.
    pub fn find_matches<'a>(&'a self, hash: u64, probe_keys: &[ValueRef<'_>]) -> (r: Vec<
        &'a HashEntry,
    >)
        ensures
            Seq::new(r@.len(), |i: int| r@[i]@) == chain_matches(
                self@,
                hash,
                key_ref_model(probe_keys@),
            ),
    {
        let ghost pred = |e: EntryModel| entry_matches(e, hash, key_ref_model(probe_keys@));
        let mut found: Vec<&'a HashEntry> = Vec::new();
        let mut i: usize = 0;
        proof {
            reveal(Seq::filter);
            assert(self@.subrange(0, 0) =~= Seq::<EntryModel>::empty());
        }
        while i < self.entries.len()
            invariant
                i <= self.entries.len(),
                self.entries.len() == self@.len(),
                pred == (|e: EntryModel| entry_matches(e, hash, key_ref_model(probe_keys@))),
                Seq::new(found@.len(), |j: int| found@[j]@) == self@.subrange(0, i as int).filter(
                    pred,
                ),
            decreases self.entries.len() - i,
        {
            let entry = &self.entries[i];
            let ghost before = Seq::new(found@.len(), |j: int| found@[j]@);
            proof {
                reveal(Seq::filter);
                assert(self@.subrange(0, i + 1).drop_last() =~= self@.subrange(0, i as int));
                assert(self@.subrange(0, i + 1).last() == entry@);
            }
            if entry.matches(hash, probe_keys) {
                found.push(entry);
                assert(Seq::new(found@.len(), |j: int| found@[j]@) =~= before.push(entry@));
            }
            i += 1;
        }
        assert(self@.subrange(0, i as int) =~= self@);
        found
    }

    /// Whether the chain holds no entry.
    pub fn is_empty(&self) -> (r: bool)
        ensures
            r == (self@.len() == 0),
    {
        self.entries.is_empty()
    }

    /// The bytes accounted for the whole chain.
    pub fn size_bytes(&self) -> (r: usize)
        requires
            chain_size(self@) <= usize::MAX,
        ensures
            r == chain_size(self@),
    {
        let mut total: usize = 0;
        let mut i: usize = 0;
        proof {
            assert(self@.subrange(0, 0) =~= Seq::<EntryModel>::empty());
        }
        while i < self.entries.len()
            invariant
                i <= self.entries.len(),
                self.entries.len() == self@.len(),
                chain_size(self@) <= usize::MAX,
                total == chain_size(self@.subrange(0, i as int)),
            decreases self.entries.len() - i,
        {
            proof {
                assert(self@.subrange(0, i + 1).drop_last() =~= self@.subrange(0, i as int));
                assert(self@.subrange(0, i + 1).last() == self.entries@[i as int]@);
                lemma_chain_size_prefix(self@, i + 1);
            }
            total = total + self.entries[i].size_bytes();
            i += 1;
        }
        assert(self@.subrange(0, i as int) =~= self@);
        total
    }
}

/// A prefix of a chain weighs no more than the whole chain.
pub proof fn lemma_chain_size_prefix(chain: Seq<EntryModel>, n: int)
    requires
        0 <= n <= chain.len(),
    ensures
        chain_size(chain.subrange(0, n)) <= chain_size(chain),
    decreases chain.len(),
{
    if n == chain.len() {
        assert(chain.subrange(0, n) =~= chain);
    } else {
        lemma_chain_size_prefix(chain.drop_last(), n);
        assert(chain.drop_last().subrange(0, n) =~= chain.subrange(0, n));
    }
}

} // verus!
