//! The hash table of a hash join.
//!
//! A table is built once and probed afterwards. While it is `Building`, rows
//! are inserted under their join key; `finalize_build` makes it `Probing`, and
//! from then on `probe` finds the first row with a given key and `next_match`
//! the following ones. `close` releases everything, from any state.
//!
//! The number of buckets is fixed when the table is made. Every insert is
//! accounted for against the memory budget and refused if it does not fit;
//! moving partitions to disk instead is reserved for later, and the handle for
//! I/O and the slot for a temporary file are kept for that day.

use vstd::prelude::*;
use crate::entry::{EntryModel, HashBucket, HashEntry, ImmutableRecord};
use crate::error::{IOResult, LimboError};
use crate::key_hash::hash_join_key;
use crate::model::{
    CursorModel,
    HashTableState,
    TableModel,
    empty_chains,
    first_match_from,
    longest_chain,
};
use crate::theorems::{lemma_empty_chains, lemma_entries_weigh, lemma_insert_totals};
use crate::value::{Value, ValueRef, key_model, key_ref_model, key_refs};

verus! {

/// `tempfile::TempDir`, a directory on disk that is removed when the value is
/// dropped. The type is only named here, so that a table can hold such a
/// directory: nothing is said of what a value of it is.
#[verifier::external_type_specification]
#[verifier::external_body]
pub struct ExTempDir(tempfile::TempDir);

/// Temporary file for spilled partitions: the directory that it lives in.
/// Reserved: no operation makes one yet.
pub struct TempFile {
    temp_dir: tempfile::TempDir,
}

/// Configuration for the hash table.
#[derive(Debug, Clone, Copy)]
pub struct HashTableConfig {
    /// Initial number of buckets: at least one, and best a power of 2. The
    /// table keeps this number for as long as it lives.
    pub initial_buckets: usize,
    /// Maximum memory budget in bytes.
    pub mem_budget: usize,
    /// Number of keys in the join condition.
    pub num_keys: usize,
}

impl Default for HashTableConfig {
    fn default() -> (r: Self)
        ensures
            r.initial_buckets == 1024,
            r.mem_budget == 64 * 1024 * 1024,
            r.num_keys == 1,
    {
        Self { initial_buckets: 1024, mem_budget: 64 * 1024 * 1024, num_keys: 1 }
    }
}

/// Statistics about a hash table.
///
/// The average chain length over the buckets that are not empty is
/// `num_entries` divided by `num_buckets - num_empty_buckets`, where that is
/// not zero.
#[derive(Debug, Clone, Copy)]
pub struct HashTableStats {
    pub num_buckets: usize,
    pub num_entries: usize,
    pub mem_used: usize,
    pub mem_budget: usize,
    pub spilled: bool,
    pub max_chain_length: usize,
    pub num_empty_buckets: usize,
}

/// The main hash table structure for hash joins.
pub struct HashTable<IO> {
    /// The hash buckets.
    buckets: Vec<HashBucket>,
    /// Number of entries in the table.
    num_entries: usize,
    /// Current memory usage in bytes.
    mem_used: usize,
    /// Memory budget in bytes.
    mem_budget: usize,
    /// Number of join keys.
    num_keys: usize,
    /// Whether the hash table has spilled to disk.
    spilled: bool,
    /// Current state of the hash table.
    state: HashTableState,
    /// IO object for disk operations.
    io: IO,
    /// Temporary file for spilled data (if any).
    temp_file: Option<TempFile>,
    /// Current probe position (bucket index).
    probe_bucket_idx: usize,
    /// Current probe position (entry index within bucket).
    probe_entry_idx: usize,
    /// Current probe key values being searched.
    current_probe_keys: Option<Vec<Value>>,
}

impl<IO> View for HashTable<IO> {
    type V = TableModel;

    closed spec fn view(&self) -> TableModel {
        TableModel {
            buckets: Seq::new(self.buckets@.len(), |i: int| self.buckets@[i]@),
            state: self.state,
            mem_budget: self.mem_budget as nat,
            num_keys: self.num_keys as nat,
            spilled: self.spilled,
            has_temp_file: self.temp_file is Some,
            cursor: match self.current_probe_keys {
                Some(keys) => Some(
                    CursorModel {
                        bucket: self.probe_bucket_idx as int,
                        next: self.probe_entry_idx as int,
                        key: key_model(keys@),
                    },
                ),
                None => None,
            },
        }
    }
}

/// The content of the entry that a probe hands out, if it hands one out.
pub open spec fn entry_model(found: Option<&HashEntry>) -> Option<EntryModel> {
    match found {
        Some(entry) => Some(entry@),
        None => None,
    }
}

impl<IO> HashTable<IO> {
    /// What holds of every table between two calls: its model is well formed,
    /// and its two counters are the number of entries and the bytes accounted
    /// for them.
    pub closed spec fn wf(&self) -> bool {
        &&& self@.wf()
        &&& self.num_entries == self@.num_entries()
        &&& self.mem_used == self@.mem_used()
    }

    /// The handle for I/O that the table was made with.
    pub closed spec fn io_handle(&self) -> IO {
        self.io
    }

    /// The model of a well-formed table is well formed, so that what is
    /// proved of well-formed models holds of every table.
    pub proof fn lemma_model_is_well_formed(&self)
        requires
            self.wf(),
        ensures
            self@.wf(),
    {
    }

    /// Create a new hash table.
    pub fn new(config: HashTableConfig, io: IO) -> (r: Self)
        requires
            config.initial_buckets > 0,
        ensures
            r.wf(),
            r@ == TableModel::initial(
                config.initial_buckets as nat,
                config.mem_budget as nat,
                config.num_keys as nat,
            ),
            r.io_handle() == io,
    {
        let num_buckets = config.initial_buckets;
        let mut buckets: Vec<HashBucket> = Vec::with_capacity(num_buckets);
        let mut i: usize = 0;
        while i < num_buckets
            invariant
                i <= num_buckets,
                buckets.len() == i,
                forall|j: int| 0 <= j < i ==> buckets[j]@ == Seq::<EntryModel>::empty(),
            decreases num_buckets - i,
        {
            buckets.push(HashBucket::new());
            i += 1;
        }
        let table = Self {
            buckets,
            num_entries: 0,
            mem_used: 0,
            mem_budget: config.mem_budget,
            num_keys: config.num_keys,
            spilled: false,
            state: HashTableState::Building,
            io,
            temp_file: None,
            probe_bucket_idx: 0,
            probe_entry_idx: 0,
            current_probe_keys: None,
        };
        proof {
            assert(table@.buckets =~= Seq::new(
                config.initial_buckets as nat,
                |i: int| Seq::<EntryModel>::empty(),
            ));
            lemma_empty_chains(table@.buckets);
        }
        table
    }

    /// Insert a row into the hash table.
    ///
    /// The entry is stored if it fits in the memory budget, and the table is
    /// left as it was if it does not: then the error says that the budget is
    /// exceeded, and the caller decides what to do about it.
    pub fn insert(&mut self, key_values: Vec<Value>, row_data: ImmutableRecord) -> (r: Result<
        IOResult<()>,
        LimboError,
    >)
        requires
            old(self).wf(),
            old(self)@.state == HashTableState::Building,
        ensures
            final(self).wf(),
            final(self).io_handle() == old(self).io_handle(),
            old(self)@.fits(key_model(key_values@), row_data@) ==> {
                &&& r == Ok::<IOResult<()>, LimboError>(IOResult::Done(()))
                &&& final(self)@ == old(self)@.insert(key_model(key_values@), row_data@)
            },
            !old(self)@.fits(key_model(key_values@), row_data@) ==> {
                &&& r is Err
                &&& r->Err_0.is_budget_exceeded()
                &&& final(self)@ == old(self)@
            },
    {
        let ghost key = key_model(key_values@);
        let ghost row = row_data@;
        // Compute hash of the join keys
        let hash = hash_join_key(key_refs(&key_values).as_slice());

        // Create entry
        let entry = HashEntry::new(hash, key_values, row_data);
        assert(entry@ == TableModel::new_entry(key, row));

        // Check if we would exceed memory budget. A table never spills, so
        // an entry that does not fit is refused.
        let entry_size: usize = match entry.checked_size_bytes() {
            Some(size) => size,
            None => {
                return Err(LimboError::budget_exceeded());
            },
        };
        if entry_size > self.mem_budget - self.mem_used {
            return Err(LimboError::budget_exceeded());
        }
        // Insert into appropriate bucket
        let num_buckets: u64 = self.buckets.len() as u64;
        let bucket_idx: usize = (hash % num_buckets) as usize;
        proof {
            lemma_insert_totals(self@.buckets, bucket_idx as int, entry@);
            lemma_entries_weigh(
                self@.buckets.update(
                    bucket_idx as int,
                    self@.buckets[bucket_idx as int].push(entry@),
                ),
            );
        }
        self.buckets[bucket_idx].insert(entry);
        self.num_entries += 1;
        self.mem_used += entry_size;
        assert(self@.buckets =~= old(self)@.insert(key, row).buckets);
        Ok(IOResult::Done(()))
    }

    /// Finalize the build phase and prepare for probing.
    pub fn finalize_build(&mut self)
        requires
            old(self).wf(),
            old(self)@.state == HashTableState::Building,
        ensures
            final(self).wf(),
            final(self)@ == old(self)@.finalize_build(),
            final(self).io_handle() == old(self).io_handle(),
    {
        self.state = HashTableState::Probing;
    }

    /// Probe the hash table with the given keys.
    /// Returns the first matching entry if found, or None if no match.
    /// Call `next_match()` to get subsequent matches.
    pub fn probe(&mut self, probe_keys: Vec<Value>) -> (r: Option<&HashEntry>)
        requires
            old(self).wf(),
            old(self)@.state == HashTableState::Probing,
        ensures
            final(self).wf(),
            final(self).io_handle() == old(self).io_handle(),
            final(self)@ == old(self)@.probe(key_model(probe_keys@)),
            entry_model(r) == old(self)@.probe_result(key_model(probe_keys@)),
    {
        // Compute hash of probe keys
        let key_refs = key_refs(&probe_keys);
        let hash = hash_join_key(key_refs.as_slice());

        // Find the bucket
        let num_buckets: u64 = self.buckets.len() as u64;
        let bucket_idx: usize = (hash % num_buckets) as usize;

        // Search for matches in the bucket
        let bucket = &self.buckets[bucket_idx];
        let found = Self::scan(bucket, 0, hash, key_refs.as_slice());
        let is_match = found < bucket.len();

        self.current_probe_keys = Some(probe_keys);
        self.probe_bucket_idx = bucket_idx;
        self.probe_entry_idx = if is_match {
            found + 1  // Next call to next_match starts here
        } else {
            0
        };
        assert(self@.buckets =~= old(self)@.buckets);
        if is_match {
            Some(self.buckets[bucket_idx].get(found))
        } else {
            None
        }
    }

    /// Get the next matching entry for the current probe keys.
    /// Returns Some(entry) if another match is found, or None if no more matches.
    pub fn next_match(&mut self) -> (r: Option<&HashEntry>)
        requires
            old(self).wf(),
            old(self)@.state == HashTableState::Probing,
        ensures
            final(self).wf(),
            final(self).io_handle() == old(self).io_handle(),
            final(self)@ == old(self)@.next_match(),
            entry_model(r) == old(self)@.next_match_result(),
    {
        let probe_keys = match &self.current_probe_keys {
            Some(probe_keys) => probe_keys,
            None => {
                return None;
            },
        };
        let key_refs = key_refs(probe_keys);
        let hash = hash_join_key(key_refs.as_slice());

        let bucket = &self.buckets[self.probe_bucket_idx];
        let found = Self::scan(bucket, self.probe_entry_idx, hash, key_refs.as_slice());
        if found < bucket.len() {
            self.probe_entry_idx = found + 1;
            assert(self@.buckets =~= old(self)@.buckets);
            Some(self.buckets[self.probe_bucket_idx].get(found))
        } else {
            None
        }
    }

    /// Scans a chain from `start` for the first entry that answers a probe
    /// with the given hash and key. Returns its position, or the length of
    /// the chain if there is none.
    fn scan(bucket: &HashBucket, start: usize, hash: u64, probe_keys: &[ValueRef<'_>]) -> (r: usize)
        requires
            start <= bucket@.len(),
        ensures
            r == first_match_from(bucket@, start as int, hash, key_ref_model(probe_keys@)),
            start <= r <= bucket@.len(),
    {
        let mut idx: usize = start;
        while idx < bucket.len()
            invariant
                start <= idx <= bucket@.len(),
                first_match_from(bucket@, start as int, hash, key_ref_model(probe_keys@))
                    == first_match_from(bucket@, idx as int, hash, key_ref_model(probe_keys@)),
            decreases bucket@.len() - idx,
        {
            if bucket.get(idx).matches(hash, probe_keys) {
                return idx;
            }
            idx += 1;
        }
        idx
    }

    /// Close the hash table and free resources.
    pub fn close(&mut self)
        requires
            old(self).wf(),
        ensures
            final(self).wf(),
            final(self)@ == old(self)@.close(),
            final(self).io_handle() == old(self).io_handle(),
    {
        self.state = HashTableState::Closed;
        self.buckets.clear();
        self.num_entries = 0;
        self.mem_used = 0;
        self.temp_file = None;
        assert(self@.buckets =~= Seq::<Seq<EntryModel>>::empty());
    }

    /// Get statistics about the hash table.
    pub fn stats(&self) -> (r: HashTableStats)
        requires
            self.wf(),
        ensures
            r.num_buckets == self@.num_buckets(),
            r.num_entries == self@.num_entries(),
            r.mem_used == self@.mem_used(),
            r.mem_budget == self@.mem_budget,
            r.spilled == self@.spilled,
            r.max_chain_length == longest_chain(self@.buckets),
            r.num_empty_buckets == empty_chains(self@.buckets),
    {
        let mut max_chain_length: usize = 0;
        let mut num_empty_buckets: usize = 0;
        let ghost chains = self@.buckets;
        let mut i: usize = 0;
        proof {
            assert(chains.subrange(0, 0) =~= Seq::<Seq<EntryModel>>::empty());
        }
        while i < self.buckets.len()
            invariant
                i <= self.buckets.len(),
                chains == self@.buckets,
                chains.len() == self.buckets.len(),
                max_chain_length == longest_chain(chains.subrange(0, i as int)),
                num_empty_buckets == empty_chains(chains.subrange(0, i as int)),
                num_empty_buckets <= i,
            decreases self.buckets.len() - i,
        {
            let chain_len = self.buckets[i].len();
            proof {
                assert(chains.subrange(0, i + 1).drop_last() =~= chains.subrange(0, i as int));
                assert(chains.subrange(0, i + 1).last() == self.buckets[i as int]@);
            }
            if chain_len == 0 {
                num_empty_buckets += 1;
            } else if chain_len > max_chain_length {
                max_chain_length = chain_len;
            }
            i += 1;
        }
        assert(chains.subrange(0, i as int) =~= chains);

        HashTableStats {
            num_buckets: self.buckets.len(),
            num_entries: self.num_entries,
            mem_used: self.mem_used,
            mem_budget: self.mem_budget,
            spilled: self.spilled,
            max_chain_length,
            num_empty_buckets,
        }
    }

    /// The state that the table is in.
    pub fn state(&self) -> (r: HashTableState)
        ensures
            r == self@.state,
    {
        self.state
    }

    /// The number of join keys that the table was made for.
    pub fn num_keys(&self) -> (r: usize)
        ensures
            r == self@.num_keys,
    {
        self.num_keys
    }

    /// The handle for I/O that the table was made with.
    pub fn io(&self) -> (r: &IO)
        ensures
            *r == self.io_handle(),
    {
        &self.io
    }

    /// Check if the hash table is empty.
    pub fn is_empty(&self) -> (r: bool)
        requires
            self.wf(),
        ensures
            r == (self@.num_entries() == 0),
    {
        self.num_entries == 0
    }
}

} // verus!
