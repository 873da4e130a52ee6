//! The mathematical model of the hash table: what it holds, which states it
//! goes through, and what each operation does to it.
//!
//! The executable table is specified by these functions: each of its methods
//! states that it takes the model from one value to the next as written here.

use vstd::prelude::*;
use crate::entry::{EntryModel, chain_matches, chain_size, entry_matches, entry_size};
use crate::key_hash::spec_hash_join_key;
use crate::value::ValueModel;

verus! {

/// State machine states for hash table operations.
#[derive(Debug, Clone, Copy, PartialEq, Eq, Structural)]
pub enum HashTableState {
    /// Entries are being inserted; nothing can be probed yet.
    Building,
    /// The build is over; the table answers probes and takes no more entries.
    Probing,
    /// Reserved for a table that has moved partitions to disk. No operation
    /// leads here.
    Spilled,
    /// The table has released its storage.
    Closed,
}

/// Where a probe stands: the bucket it scans, the position from which the
/// scan goes on, and the key it looks for.
pub struct CursorModel {
    pub bucket: int,
    pub next: int,
    pub key: Seq<ValueModel>,
}

/// The mathematical content of a hash table.
pub struct TableModel {
    /// The chains, one per bucket, each in insertion order.
    pub buckets: Seq<Seq<EntryModel>>,
    pub state: HashTableState,
    pub mem_budget: nat,
    pub num_keys: nat,
    pub spilled: bool,
    pub has_temp_file: bool,
    /// The cursor that the last probe left, if there was a probe.
    pub cursor: Option<CursorModel>,
}

/// The number of entries in a sequence of chains.
pub open spec fn total_entries(buckets: Seq<Seq<EntryModel>>) -> nat
    decreases buckets.len(),
{
    if buckets.len() == 0 {
        0
    } else {
        total_entries(buckets.drop_last()) + buckets.last().len()
    }
}

/// The bytes accounted for a sequence of chains.
pub open spec fn total_size(buckets: Seq<Seq<EntryModel>>) -> nat
    decreases buckets.len(),
{
    if buckets.len() == 0 {
        0
    } else {
        total_size(buckets.drop_last()) + chain_size(buckets.last())
    }
}

/// The length of the longest chain, 0 where there is no chain.
pub open spec fn longest_chain(buckets: Seq<Seq<EntryModel>>) -> nat
    decreases buckets.len(),
{
    if buckets.len() == 0 {
        0
    } else if buckets.last().len() > longest_chain(buckets.drop_last()) {
        buckets.last().len()
    } else {
        longest_chain(buckets.drop_last())
    }
}

/// The number of chains that hold no entry.
pub open spec fn empty_chains(buckets: Seq<Seq<EntryModel>>) -> nat
    decreases buckets.len(),
{
    if buckets.len() == 0 {
        0
    } else if buckets.last().len() == 0 {
        empty_chains(buckets.drop_last()) + 1
    } else {
        empty_chains(buckets.drop_last())
    }
}

/// The index of the bucket that holds the entries with the given hash.
pub open spec fn bucket_of(hash: u64, num_buckets: int) -> int {
    hash as int % num_buckets
}

/// Whether an entry is where it belongs: it caches the hash of its own key,
/// and sits in the bucket of that hash.
pub open spec fn entry_placed(e: EntryModel, bucket: int, num_buckets: int) -> bool {
    e.hash == spec_hash_join_key(e.key) && bucket_of(e.hash, num_buckets) == bucket
}

/// The position of the first entry of `chain` at or after `start` that answers
/// the probe, or the length of the chain if there is none.
pub open spec fn first_match_from(
    chain: Seq<EntryModel>,
    start: int,
    hash: u64,
    probe_key: Seq<ValueModel>,
) -> int
    decreases chain.len() - start,
{
    if start < 0 || start >= chain.len() {
        chain.len() as int
    } else if entry_matches(chain[start], hash, probe_key) {
        start
    } else {
        first_match_from(chain, start + 1, hash, probe_key)
    }
}

impl TableModel {
    /// The table as it is made: `initial_buckets` empty chains, nothing
    /// inserted, ready to be built.
    pub open spec fn initial(initial_buckets: nat, mem_budget: nat, num_keys: nat) -> TableModel {
        TableModel {
            buckets: Seq::new(initial_buckets, |i: int| Seq::<EntryModel>::empty()),
            state: HashTableState::Building,
            mem_budget,
            num_keys,
            spilled: false,
            has_temp_file: false,
            cursor: None,
        }
    }

    pub open spec fn num_buckets(self) -> int {
        self.buckets.len() as int
    }

    pub open spec fn num_entries(self) -> nat {
        total_entries(self.buckets)
    }

    pub open spec fn mem_used(self) -> nat {
        total_size(self.buckets)
    }

    /// What holds of every table at every moment.
    pub open spec fn wf(self) -> bool {
        &&& self.state != HashTableState::Spilled
        &&& !self.spilled
        &&& self.state == HashTableState::Closed <==> self.buckets.len() == 0
        &&& forall|b: int, i: int|
            0 <= b < self.buckets.len() && 0 <= i < self.buckets[b].len() ==> entry_placed(
                #[trigger] self.buckets[b][i],
                b,
                self.num_buckets(),
            )
        &&& self.mem_used() <= self.mem_budget
        &&& (self.state != HashTableState::Closed && self.cursor is Some ==> {
            let c = self.cursor->0;
            &&& c.bucket == bucket_of(spec_hash_join_key(c.key), self.num_buckets())
            &&& 0 <= c.next <= self.buckets[c.bucket].len()
        })
    }

    /// The entry that an insert of `key` and `row` stores.
    pub open spec fn new_entry(key: Seq<ValueModel>, row: Seq<u8>) -> EntryModel {
        EntryModel { hash: spec_hash_join_key(key), key, row }
    }

    /// Whether an entry of `key` and `row` still fits in the memory budget.
    pub open spec fn fits(self, key: Seq<ValueModel>, row: Seq<u8>) -> bool {
        self.mem_used() + entry_size(Self::new_entry(key, row)) <= self.mem_budget
    }

    /// The table after an insert of `key` and `row`: the new entry stands at
    /// the end of the chain of its hash, and nothing else has changed.
    pub open spec fn insert(self, key: Seq<ValueModel>, row: Seq<u8>) -> TableModel {
        let e = Self::new_entry(key, row);
        let b = bucket_of(e.hash, self.num_buckets());
        TableModel { buckets: self.buckets.update(b, self.buckets[b].push(e)), ..self }
    }

    /// The table after the build has been finalized.
    pub open spec fn finalize_build(self) -> TableModel {
        TableModel { state: HashTableState::Probing, ..self }
    }

    /// The chain that a probe for `key` scans.
    pub open spec fn probe_chain(self, key: Seq<ValueModel>) -> Seq<EntryModel> {
        self.buckets[bucket_of(spec_hash_join_key(key), self.num_buckets())]
    }

    /// The position in its chain of the first entry that answers a probe for
    /// `key`, or the length of the chain if there is none.
    pub open spec fn probe_position(self, key: Seq<ValueModel>) -> int {
        first_match_from(self.probe_chain(key), 0, spec_hash_join_key(key), key)
    }

    /// What a probe for `key` returns: the first entry of the chain that
    /// answers it, if there is one.
    pub open spec fn probe_result(self, key: Seq<ValueModel>) -> Option<EntryModel> {
        let chain = self.probe_chain(key);
        let at = self.probe_position(key);
        if at < chain.len() {
            Some(chain[at])
        } else {
            None
        }
    }

    /// The table after a probe for `key`: the entries are untouched, and the
    /// cursor stands behind the first match, or at the head of the chain if
    /// there is none.
    pub open spec fn probe(self, key: Seq<ValueModel>) -> TableModel {
        let chain = self.probe_chain(key);
        let at = self.probe_position(key);
        let next = if at < chain.len() {
            at + 1
        } else {
            0
        };
        TableModel {
            cursor: Some(
                CursorModel {
                    bucket: bucket_of(spec_hash_join_key(key), self.num_buckets()),
                    next,
                    key,
                },
            ),
            ..self
        }
    }

    /// The position in its chain of the next entry that answers the probe in
    /// progress, or the length of the chain if there is none. Only meaningful
    /// where there is a cursor.
    pub open spec fn next_position(self) -> int {
        let c = self.cursor->0;
        first_match_from(self.buckets[c.bucket], c.next, spec_hash_join_key(c.key), c.key)
    }

    /// What `next_match` returns: the next entry that answers the probe in
    /// progress, if there is a probe in progress and such an entry.
    pub open spec fn next_match_result(self) -> Option<EntryModel> {
        if self.cursor is Some && self.next_position() < self.buckets[self.cursor->0.bucket].len() {
            Some(self.buckets[self.cursor->0.bucket][self.next_position()])
        } else {
            None
        }
    }

    /// The table after `next_match`: the cursor stands behind the entry that
    /// was returned, and has not moved if none was.
    pub open spec fn next_match(self) -> TableModel {
        if self.next_match_result() is Some {
            TableModel {
                cursor: Some(CursorModel { next: self.next_position() + 1, ..self.cursor->0 }),
                ..self
            }
        } else {
            self
        }
    }

    /// The table after a probe for `key` and `n` calls of `next_match`.
    pub open spec fn after_matches(self, key: Seq<ValueModel>, n: nat) -> TableModel
        decreases n,
    {
        if n == 0 {
            self.probe(key)
        } else {
            self.after_matches(key, (n - 1) as nat).next_match()
        }
    }

    /// What a probe for `key` returns, for `n == 0`; what the `n`-th call of
    /// `next_match` after that probe returns, for a greater `n`.
    pub open spec fn nth_match(self, key: Seq<ValueModel>, n: nat) -> Option<EntryModel> {
        if n == 0 {
            self.probe_result(key)
        } else {
            self.after_matches(key, (n - 1) as nat).next_match_result()
        }
    }

    /// All entries that answer a probe for `key`, in the order in which they
    /// were inserted.
    pub open spec fn matches(self, key: Seq<ValueModel>) -> Seq<EntryModel> {
        chain_matches(self.probe_chain(key), spec_hash_join_key(key), key)
    }

    /// Whether the table holds the entry `e`.
    pub open spec fn holds(self, e: EntryModel) -> bool {
        exists|b: int, i: int|
            0 <= b < self.buckets.len() && 0 <= i < self.buckets[b].len()
                && #[trigger] self.buckets[b][i] == e
    }

    /// The table after the inserts of `rows`, one after the other: each row is
    /// a key and a payload.
    pub open spec fn insert_all(self, rows: Seq<(Seq<ValueModel>, Seq<u8>)>) -> TableModel
        decreases rows.len(),
    {
        if rows.len() == 0 {
            self
        } else {
            self.insert_all(rows.drop_last()).insert(rows.last().0, rows.last().1)
        }
    }

    /// Whether each of `rows`, inserted one after the other, fits in the
    /// memory budget when its turn comes.
    pub open spec fn all_fit(self, rows: Seq<(Seq<ValueModel>, Seq<u8>)>) -> bool
        decreases rows.len(),
    {
        rows.len() > 0 ==> {
            &&& self.all_fit(rows.drop_last())
            &&& self.insert_all(rows.drop_last()).fits(rows.last().0, rows.last().1)
        }
    }

    /// The table after it has been closed: no bucket, no entry, no temporary
    /// file.
    pub open spec fn close(self) -> TableModel {
        TableModel {
            buckets: Seq::empty(),
            state: HashTableState::Closed,
            has_temp_file: false,
            ..self
        }
    }
}

} // verus!
