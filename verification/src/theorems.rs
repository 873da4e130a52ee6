//! What follows from the model of the hash table: the facts about building
//! and probing that a caller may rely on, each proved once and for all.

use vstd::prelude::*;
use crate::entry::{EntryModel, chain_matches, chain_size, entry_matches, entry_size};
use crate::key_equal::spec_keys_equal;
use crate::key_hash::spec_hash_join_key;
use crate::model::{
    HashTableState,
    TableModel,
    bucket_of,
    entry_placed,
    first_match_from,
    longest_chain,
    total_entries,
    total_size,
};
use crate::value::ValueModel;

verus! {

/// A hash falls into one of the buckets.
pub proof fn lemma_bucket_in_range(hash: u64, num_buckets: int)
    requires
        num_buckets > 0,
    ensures
        0 <= bucket_of(hash, num_buckets) < num_buckets,
{
    assert(0 <= hash as int % num_buckets < num_buckets) by (nonlinear_arith)
        requires
            num_buckets > 0,
            hash >= 0,
    ;
}

/// The scan stops at the first entry that answers the probe, and at the end
/// of the chain if no entry does.
pub proof fn lemma_first_match(
    chain: Seq<EntryModel>,
    start: int,
    hash: u64,
    probe_key: Seq<ValueModel>,
)
    requires
        0 <= start <= chain.len(),
    ensures
        start <= first_match_from(chain, start, hash, probe_key) <= chain.len(),
        first_match_from(chain, start, hash, probe_key) < chain.len() ==> entry_matches(
            chain[first_match_from(chain, start, hash, probe_key)],
            hash,
            probe_key,
        ),
        forall|j: int|
            start <= j < first_match_from(chain, start, hash, probe_key) ==> !entry_matches(
                #[trigger] chain[j],
                hash,
                probe_key,
            ),
    decreases chain.len() - start,
{
    if start < chain.len() && !entry_matches(chain[start], hash, probe_key) {
        lemma_first_match(chain, start + 1, hash, probe_key);
    }
}

/// The entry at which the scan stops is the first of the matches that the
/// rest of the chain holds, and the matches behind it are the others.
pub proof fn lemma_scan_takes_first_match(
    chain: Seq<EntryModel>,
    start: int,
    hash: u64,
    probe_key: Seq<ValueModel>,
)
    requires
        0 <= start <= chain.len(),
    ensures
        ({
            let at = first_match_from(chain, start, hash, probe_key);
            let rest = chain_matches(chain.subrange(start, chain.len() as int), hash, probe_key);
            &&& start <= at <= chain.len()
            &&& at == chain.len() ==> rest.len() == 0
            &&& at < chain.len() ==> {
                &&& rest.len() > 0
                &&& rest[0] == chain[at]
                &&& chain_matches(chain.subrange(at + 1, chain.len() as int), hash, probe_key)
                    == rest.subrange(1, rest.len() as int)
            }
        }),
    decreases chain.len() - start,
{
    let len = chain.len() as int;
    let pred = |e: EntryModel| entry_matches(e, hash, probe_key);
    let tail = chain.subrange(start, len);
    reveal_with_fuel(Seq::filter, 2);
    if start == len {
        assert(tail.len() == 0);
    } else {
        let head = seq![chain[start]];
        let behind = chain.subrange(start + 1, len);
        assert(tail =~= head + behind);
        Seq::filter_distributes_over_add(head, behind, pred);
        assert(head.drop_last() =~= Seq::<EntryModel>::empty());
        if entry_matches(chain[start], hash, probe_key) {
            assert(head.filter(pred) =~= head);
            assert(tail.filter(pred).subrange(1, tail.filter(pred).len() as int) =~= behind.filter(
                pred,
            ));
        } else {
            assert(head.filter(pred) =~= Seq::<EntryModel>::empty());
            assert(tail.filter(pred) =~= behind.filter(pred));
            lemma_scan_takes_first_match(chain, start + 1, hash, probe_key);
        }
    }
}

/// An insert that fits leaves a well-formed table, with as many buckets as
/// before, that holds the new entry and every entry that was there, each at
/// its old place.
pub proof fn theorem_insert_keeps_entries(m: TableModel, key: Seq<ValueModel>, row: Seq<u8>)
    requires
        m.wf(),
        m.state == HashTableState::Building,
        m.fits(key, row),
    ensures
        m.insert(key, row).wf(),
        m.insert(key, row).state == HashTableState::Building,
        m.insert(key, row).num_buckets() == m.num_buckets(),
        m.insert(key, row).holds(TableModel::new_entry(key, row)),
        m.insert(key, row).num_entries() == m.num_entries() + 1,
        m.insert(key, row).mem_used() == m.mem_used() + entry_size(
            TableModel::new_entry(key, row),
        ),
        forall|b: int, i: int|
            0 <= b < m.buckets.len() && 0 <= i < m.buckets[b].len() ==> #[trigger] m.insert(
                key,
                row,
            ).buckets[b][i] == m.buckets[b][i],
{
    let e = TableModel::new_entry(key, row);
    let n = m.num_buckets();
    let b = bucket_of(e.hash, n);
    let after = m.insert(key, row);
    lemma_bucket_in_range(e.hash, n);
    lemma_insert_totals(m.buckets, b, e);
    assert(after.buckets[b][m.buckets[b].len() as int] == e);
    assert forall|c: int, i: int|
        0 <= c < after.buckets.len() && 0 <= i < after.buckets[c].len() implies entry_placed(
        #[trigger] after.buckets[c][i],
        c,
        after.num_buckets(),
    ) by {
        if c == b && i == m.buckets[b].len() {
        } else {
            assert(after.buckets[c][i] == m.buckets[c][i]);
        }
    }
}

/// Whatever a table holds, it still holds after an insert.
pub proof fn theorem_insert_keeps_holding(
    m: TableModel,
    key: Seq<ValueModel>,
    row: Seq<u8>,
    e: EntryModel,
)
    requires
        m.wf(),
        m.state == HashTableState::Building,
        m.fits(key, row),
        m.holds(e),
    ensures
        m.insert(key, row).holds(e),
{
    theorem_insert_keeps_entries(m, key, row);
    let (b, i) = choose|b: int, i: int|
        0 <= b < m.buckets.len() && 0 <= i < m.buckets[b].len() && #[trigger] m.buckets[b][i] == e;
    assert(m.insert(key, row).buckets[b][i] == e);
}

/// A series of inserts that fit leaves a well-formed table that is still
/// being built and has as many buckets as before.
pub proof fn theorem_inserts_keep_well_formed(
    m: TableModel,
    rows: Seq<(Seq<ValueModel>, Seq<u8>)>,
)
    requires
        m.wf(),
        m.state == HashTableState::Building,
        m.all_fit(rows),
    ensures
        m.insert_all(rows).wf(),
        m.insert_all(rows).state == HashTableState::Building,
        m.insert_all(rows).num_buckets() == m.num_buckets(),
    decreases rows.len(),
{
    if rows.len() > 0 {
        theorem_inserts_keep_well_formed(m, rows.drop_last());
        theorem_insert_keeps_entries(m.insert_all(rows.drop_last()), rows.last().0, rows.last().1);
    }
}

/// After a series of inserts that fit, the table holds an entry for each of
/// them.
pub proof fn theorem_inserts_are_held(
    m: TableModel,
    rows: Seq<(Seq<ValueModel>, Seq<u8>)>,
    i: int,
)
    requires
        m.wf(),
        m.state == HashTableState::Building,
        m.all_fit(rows),
        0 <= i < rows.len(),
    ensures
        m.insert_all(rows).holds(TableModel::new_entry(rows[i].0, rows[i].1)),
    decreases rows.len(),
{
    let before = m.insert_all(rows.drop_last());
    theorem_inserts_keep_well_formed(m, rows.drop_last());
    theorem_insert_keeps_entries(before, rows.last().0, rows.last().1);
    if i < rows.len() - 1 {
        theorem_inserts_are_held(m, rows.drop_last(), i);
        theorem_insert_keeps_holding(
            before,
            rows.last().0,
            rows.last().1,
            TableModel::new_entry(rows[i].0, rows[i].1),
        );
    }
}

/// A probe for the key of an entry that the table holds finds an entry with
/// an equal key, unless the key holds a NaN and so does not equal itself.
pub proof fn theorem_probe_finds_held_key(m: TableModel, e: EntryModel)
    requires
        m.wf(),
        m.state != HashTableState::Closed,
        m.holds(e),
        spec_keys_equal(e.key, e.key),
    ensures
        m.probe_result(e.key) is Some,
        entry_matches(m.probe_result(e.key)->0, spec_hash_join_key(e.key), e.key),
        m.holds(m.probe_result(e.key)->0),
{
    let (b, i) = choose|b: int, i: int|
        0 <= b < m.buckets.len() && 0 <= i < m.buckets[b].len() && #[trigger] m.buckets[b][i] == e;
    assert(entry_placed(m.buckets[b][i], b, m.num_buckets()));
    let chain = m.probe_chain(e.key);
    assert(chain == m.buckets[b]);
    lemma_first_match(chain, 0, spec_hash_join_key(e.key), e.key);
    let at = m.probe_position(e.key);
    if at > i {
        assert(!entry_matches(chain[i], spec_hash_join_key(e.key), e.key));
    }
    assert(m.buckets[b][at] == m.probe_result(e.key)->0);
}

/// Every row that was inserted while the table was built is found when the
/// table is probed for its key: the probe returns an entry whose key equals
/// the key of the row. The one exception is a key that holds a NaN, which
/// equals no key.
pub proof fn theorem_probe_finds_inserted_key(
    m: TableModel,
    rows: Seq<(Seq<ValueModel>, Seq<u8>)>,
    i: int,
)
    requires
        m.wf(),
        m.state == HashTableState::Building,
        m.all_fit(rows),
        0 <= i < rows.len(),
        spec_keys_equal(rows[i].0, rows[i].0),
    ensures
        m.insert_all(rows).finalize_build().probe_result(rows[i].0) is Some,
        spec_keys_equal(
            m.insert_all(rows).finalize_build().probe_result(rows[i].0)->0.key,
            rows[i].0,
        ),
{
    let built = m.insert_all(rows);
    let e = TableModel::new_entry(rows[i].0, rows[i].1);
    theorem_inserts_keep_well_formed(m, rows);
    theorem_inserts_are_held(m, rows, i);
    let (b, j) = choose|b: int, j: int|
        0 <= b < built.buckets.len() && 0 <= j < built.buckets[b].len()
            && #[trigger] built.buckets[b][j] == e;
    assert(built.finalize_build().buckets[b][j] == e);
    theorem_probe_finds_held_key(built.finalize_build(), e);
}

/// A probe followed by calls of `next_match` hands out the entries that
/// answer the probe, each once, in the order in which they were inserted, and
/// nothing from then on.
pub proof fn theorem_probe_enumerates_matches(m: TableModel, key: Seq<ValueModel>, n: nat)
    requires
        m.wf(),
        m.state == HashTableState::Probing,
    ensures
        n < m.matches(key).len() ==> m.nth_match(key, n) == Some(m.matches(key)[n as int]),
        n >= m.matches(key).len() ==> m.nth_match(key, n) is None,
{
    lemma_cursor_follows_matches(m, key, n);
}

/// Where the cursor stands after a probe and `n` calls of `next_match`: the
/// matches behind it are those that have not been handed out yet.
pub proof fn lemma_cursor_follows_matches(m: TableModel, key: Seq<ValueModel>, n: nat)
    requires
        m.wf(),
        m.state == HashTableState::Probing,
    ensures
        n < m.matches(key).len() ==> m.nth_match(key, n) == Some(m.matches(key)[n as int]),
        n >= m.matches(key).len() ==> m.nth_match(key, n) is None,
        ({
            let after = m.after_matches(key, n);
            let chain = m.probe_chain(key);
            let all = m.matches(key);
            let handed_out: int = if n < all.len() {
                n as int + 1
            } else {
                all.len() as int
            };
            &&& after == TableModel { cursor: after.cursor, ..m }
            &&& after.cursor is Some
            &&& after.cursor->0.bucket == bucket_of(spec_hash_join_key(key), m.num_buckets())
            &&& after.cursor->0.key == key
            &&& 0 <= after.cursor->0.next <= chain.len()
            &&& chain_matches(
                chain.subrange(after.cursor->0.next, chain.len() as int),
                spec_hash_join_key(key),
                key,
            ) == all.subrange(handed_out, all.len() as int)
        }),
    decreases n,
{
    let hash = spec_hash_join_key(key);
    let chain = m.probe_chain(key);
    let all = m.matches(key);
    lemma_bucket_in_range(hash, m.num_buckets());
    if n == 0 {
        lemma_scan_takes_first_match(chain, 0, hash, key);
        assert(chain.subrange(0, chain.len() as int) =~= chain);
        if all.len() == 0 {
            assert(all.subrange(0, 0) =~= all);
        }
    } else {
        lemma_cursor_follows_matches(m, key, (n - 1) as nat);
        let before = m.after_matches(key, (n - 1) as nat);
        let from = before.cursor->0.next;
        assert(before.buckets[before.cursor->0.bucket] == chain);
        lemma_scan_takes_first_match(chain, from, hash, key);
        let rest = chain_matches(chain.subrange(from, chain.len() as int), hash, key);
        if before.next_position() < chain.len() {
            assert(rest.len() > 0);
            assert(n < all.len());
            assert(rest[0] == all[n as int]);
            assert(rest.subrange(1, rest.len() as int) =~= all.subrange(n as int + 1, all.len() as int));
        } else {
            assert(rest.len() == 0);
            assert(n >= all.len());
        }
    }
}

/// An insert adds its entry to the matches of the keys that it answers, at
/// the end, and leaves the matches of every other key as they were.
pub proof fn theorem_insert_extends_matches(
    m: TableModel,
    key: Seq<ValueModel>,
    row: Seq<u8>,
    probe_key: Seq<ValueModel>,
)
    requires
        m.wf(),
        m.state == HashTableState::Building,
    ensures
        m.insert(key, row).matches(probe_key) == if entry_matches(
            TableModel::new_entry(key, row),
            spec_hash_join_key(probe_key),
            probe_key,
        ) {
            m.matches(probe_key).push(TableModel::new_entry(key, row))
        } else {
            m.matches(probe_key)
        },
{
    let e = TableModel::new_entry(key, row);
    let n = m.num_buckets();
    let hash = spec_hash_join_key(probe_key);
    lemma_bucket_in_range(e.hash, n);
    lemma_bucket_in_range(hash, n);
    let chain = m.probe_chain(probe_key);
    if bucket_of(e.hash, n) == bucket_of(hash, n) {
        reveal(Seq::filter);
        assert(m.insert(key, row).probe_chain(probe_key) == chain.push(e));
        assert(chain.push(e).drop_last() =~= chain);
    } else {
        assert(m.insert(key, row).probe_chain(probe_key) == chain);
    }
}

/// The rows that hold one key each, with the payloads given.
pub open spec fn rows_of_key(key: Seq<ValueModel>, payloads: Seq<Seq<u8>>) -> Seq<
    (Seq<ValueModel>, Seq<u8>),
> {
    Seq::new(payloads.len(), |i: int| (key, payloads[i]))
}

/// After inserts of one key with several payloads, the matches of that key
/// are those that were there before and then one entry for each payload, in
/// the order of the inserts. The key must equal itself: it holds no NaN.
pub proof fn theorem_duplicates_extend_matches(
    m: TableModel,
    key: Seq<ValueModel>,
    payloads: Seq<Seq<u8>>,
)
    requires
        m.wf(),
        m.state == HashTableState::Building,
        spec_keys_equal(key, key),
        m.all_fit(rows_of_key(key, payloads)),
    ensures
        m.insert_all(rows_of_key(key, payloads)).matches(key) == m.matches(key) + Seq::new(
            payloads.len(),
            |i: int| TableModel::new_entry(key, payloads[i]),
        ),
    decreases payloads.len(),
{
    let rows = rows_of_key(key, payloads);
    let added = Seq::new(payloads.len(), |i: int| TableModel::new_entry(key, payloads[i]));
    if payloads.len() == 0 {
        assert(m.matches(key) + added =~= m.matches(key));
    } else {
        let fewer = payloads.drop_last();
        assert(rows.drop_last() =~= rows_of_key(key, fewer));
        theorem_duplicates_extend_matches(m, key, fewer);
        theorem_inserts_keep_well_formed(m, rows.drop_last());
        theorem_insert_extends_matches(m.insert_all(rows.drop_last()), key, payloads.last(), key);
        assert(m.matches(key) + added =~= (m.matches(key) + Seq::new(
            fewer.len(),
            |i: int| TableModel::new_entry(key, fewer[i]),
        )).push(TableModel::new_entry(key, payloads.last())));
    }
}

/// A key inserted `k` times into a table that had no match for it is found
/// `k` times when the table is probed: once by the probe and `k - 1` times by
/// `next_match`, in the order of the inserts, and not once more.
pub proof fn theorem_duplicates_are_found_once_each(
    m: TableModel,
    key: Seq<ValueModel>,
    payloads: Seq<Seq<u8>>,
    n: nat,
)
    requires
        m.wf(),
        m.state == HashTableState::Building,
        spec_keys_equal(key, key),
        m.matches(key).len() == 0,
        m.all_fit(rows_of_key(key, payloads)),
    ensures
        n < payloads.len() ==> m.insert_all(rows_of_key(key, payloads)).finalize_build().nth_match(
            key,
            n,
        ) == Some(TableModel::new_entry(key, payloads[n as int])),
        n >= payloads.len() ==> m.insert_all(rows_of_key(key, payloads)).finalize_build().nth_match(
            key,
            n,
        ) is None,
{
    let built = m.insert_all(rows_of_key(key, payloads));
    theorem_inserts_keep_well_formed(m, rows_of_key(key, payloads));
    theorem_duplicates_extend_matches(m, key, payloads);
    assert(built.finalize_build().matches(key) == built.matches(key));
    theorem_probe_enumerates_matches(built.finalize_build(), key, n);
}

/// A probe for a key that equals the key of no entry finds nothing, and
/// leaves the table as it was but for the cursor.
pub proof fn theorem_probe_of_absent_key(m: TableModel, key: Seq<ValueModel>)
    requires
        m.wf(),
        m.state == HashTableState::Probing,
        forall|e: EntryModel| m.holds(e) ==> !spec_keys_equal(e.key, key),
    ensures
        m.probe_result(key) is None,
        m.probe(key) == (TableModel { cursor: m.probe(key).cursor, ..m }),
        m.probe(key).next_match_result() is None,
{
    let hash = spec_hash_join_key(key);
    let b = bucket_of(hash, m.num_buckets());
    lemma_bucket_in_range(hash, m.num_buckets());
    let chain = m.probe_chain(key);
    lemma_first_match(chain, 0, hash, key);
    let at = m.probe_position(key);
    if at < chain.len() {
        assert(m.buckets[b][at] == chain[at]);
        assert(m.holds(chain[at]));
    }
}

/// Closing a closed table changes nothing, and a closed table holds no entry
/// and accounts for no memory.
pub proof fn theorem_close_is_idempotent(m: TableModel)
    ensures
        m.close().close() == m.close(),
        m.close().state == HashTableState::Closed,
        m.close().num_entries() == 0,
        m.close().mem_used() == 0,
        m.wf() ==> m.close().wf(),
{
}

/// No chain is longer than the longest, and together the chains hold no more
/// entries than as many longest chains would. So a table with more entries
/// than buckets has a chain of two entries or more.
pub proof fn theorem_longest_chain_bounds(buckets: Seq<Seq<EntryModel>>)
    ensures
        forall|b: int| 0 <= b < buckets.len() ==> (#[trigger] buckets[b]).len() <= longest_chain(buckets),
        total_entries(buckets) <= buckets.len() * longest_chain(buckets),
    decreases buckets.len(),
{
    if buckets.len() > 0 {
        let fewer = buckets.drop_last();
        theorem_longest_chain_bounds(fewer);
        assert forall|b: int| 0 <= b < buckets.len() implies (#[trigger] buckets[b]).len()
            <= longest_chain(buckets) by {
            if b < fewer.len() {
                assert(fewer[b] == buckets[b]);
            }
        }
        assert(fewer.len() * longest_chain(fewer) + longest_chain(buckets) <= buckets.len()
            * longest_chain(buckets)) by (nonlinear_arith)
            requires
                fewer.len() + 1 == buckets.len(),
                longest_chain(fewer) <= longest_chain(buckets),
        ;
    }
}

/// Chains that are all empty hold no entry and weigh nothing.
pub proof fn lemma_empty_chains(buckets: Seq<Seq<EntryModel>>)
    requires
        forall|i: int| 0 <= i < buckets.len() ==> buckets[i].len() == 0,
    ensures
        total_entries(buckets) == 0,
        total_size(buckets) == 0,
    decreases buckets.len(),
{
    if buckets.len() > 0 {
        lemma_empty_chains(buckets.drop_last());
    }
}

/// Appending an entry to one chain adds one entry, and the bytes accounted
/// for it, to the totals.
pub proof fn lemma_insert_totals(buckets: Seq<Seq<EntryModel>>, b: int, e: EntryModel)
    requires
        0 <= b < buckets.len(),
    ensures
        total_entries(buckets.update(b, buckets[b].push(e))) == total_entries(buckets) + 1,
        total_size(buckets.update(b, buckets[b].push(e))) == total_size(buckets) + entry_size(e),
    decreases buckets.len(),
{
    let after = buckets.update(b, buckets[b].push(e));
    if b == buckets.len() - 1 {
        assert(after.drop_last() =~= buckets.drop_last());
        assert(buckets[b].push(e).drop_last() =~= buckets[b]);
    } else {
        lemma_insert_totals(buckets.drop_last(), b, e);
        assert(after.drop_last() =~= buckets.drop_last().update(b, buckets[b].push(e)));
    }
}

/// Every entry is accounted for with at least eight bytes.
pub proof fn lemma_entries_weigh(buckets: Seq<Seq<EntryModel>>)
    ensures
        8 * total_entries(buckets) <= total_size(buckets),
    decreases buckets.len(),
{
    if buckets.len() > 0 {
        lemma_entries_weigh(buckets.drop_last());
        lemma_chain_weighs(buckets.last());
    }
}

/// Every entry of a chain is accounted for with at least eight bytes.
pub proof fn lemma_chain_weighs(chain: Seq<EntryModel>)
    ensures
        8 * chain.len() <= chain_size(chain),
    decreases chain.len(),
{
    if chain.len() > 0 {
        lemma_chain_weighs(chain.drop_last());
    }
}

} // verus!
