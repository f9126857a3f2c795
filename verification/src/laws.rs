//! Delivery laws of the watch engine, each proved once and for all over
//! the matching specification that `match_transaction` is verified
//! against: what one committed transaction produces for a given watch.

use vstd::prelude::*;

use crate::dispatcher::has_pair_id;
use crate::matcher::{entry_matches, event_of, matched_pairs, matches_for, record_matches};
use crate::model::{EntryModel, EventModel, KeySelector, RecordModel, sec_lookup};
use crate::registry::Watchers;

verus! {

/// Pairwise distinct watcher ids, as the registry's well-formedness keeps
/// them.
pub open spec fn distinct_ids(entries: Seq<EntryModel>) -> bool {
    forall|p: int, q: int|
        0 <= p < q < entries.len() ==> #[trigger] entries[p].id != #[trigger] entries[q].id
}

/// A well-formed registry has pairwise distinct watcher ids.
pub proof fn lemma_wf_distinct(w: &Watchers)
    requires
        w.wf(),
    ensures
        distinct_ids(w@),
{
}

/// How many pairs of one dispatch batch carry watcher id `id`.
pub open spec fn count_id(pairs: Seq<(u64, EventModel)>, id: u64) -> nat
    decreases pairs.len(),
{
    if pairs.len() == 0 {
        0
    } else {
        count_id(pairs.drop_last(), id) + (if pairs.last().0 == id {
            1nat
        } else {
            0nat
        })
    }
}

/// A record produces no pair for an id that no entry carries.
pub proof fn lemma_matches_for_absent(entries: Seq<EntryModel>, r: RecordModel, id: u64)
    requires
        forall|i: int| 0 <= i < entries.len() ==> (#[trigger] entries[i].id) != id,
    ensures
        count_id(matches_for(entries, r), id) == 0,
    decreases entries.len(),
{
    if entries.len() > 0 {
        let prefix = entries.drop_last();
        lemma_matches_for_absent(prefix, r, id);
        if entry_matches(entries.last(), r) {
            let mf = matches_for(entries, r);
            assert(mf.drop_last() =~= matches_for(prefix, r));
        }
    }
}

/// A record produces exactly one pair for a matching entry's id and none
/// for a non-matching entry's id.
pub proof fn lemma_matches_for_exact(entries: Seq<EntryModel>, r: RecordModel, w: int)
    requires
        distinct_ids(entries),
        0 <= w < entries.len(),
    ensures
        count_id(matches_for(entries, r), entries[w].id) == (if entry_matches(entries[w], r) {
            1nat
        } else {
            0nat
        }),
    decreases entries.len(),
{
    let id = entries[w].id;
    let prefix = entries.drop_last();
    let mf = matches_for(entries, r);
    if w < entries.len() - 1 {
        assert(prefix[w] == entries[w]);
        lemma_matches_for_exact(prefix, r, w);
        assert(entries.last().id != id);
        if entry_matches(entries.last(), r) {
            assert(mf.drop_last() =~= matches_for(prefix, r));
            assert(mf.last().0 != id);
        }
    } else {
        assert(forall|i: int| 0 <= i < prefix.len() ==> (#[trigger] prefix[i].id) != id);
        lemma_matches_for_absent(prefix, r, id);
        if entry_matches(entries.last(), r) {
            assert(mf.drop_last() =~= matches_for(prefix, r));
            assert(mf.last().0 == id);
        }
    }
}

/// Every pair a record produces carries the record's own event.
pub proof fn lemma_matches_for_event(entries: Seq<EntryModel>, r: RecordModel)
    ensures
        forall|k: int|
            0 <= k < matches_for(entries, r).len() ==> (#[trigger] matches_for(entries, r)[k]).1
                == event_of(r),
    decreases entries.len(),
{
    if entries.len() > 0 {
        let prefix = entries.drop_last();
        lemma_matches_for_event(prefix, r);
        let mf = matches_for(entries, r);
        assert forall|k: int| 0 <= k < mf.len() implies (#[trigger] mf[k]).1 == event_of(r) by {
            if entry_matches(entries.last(), r) && k < mf.len() - 1 {
                assert(mf[k] == matches_for(prefix, r)[k]);
            }
        }
    }
}

/// Counting pairs distributes over batch concatenation.
pub proof fn lemma_count_concat(a: Seq<(u64, EventModel)>, b: Seq<(u64, EventModel)>, id: u64)
    ensures
        count_id(a + b, id) == count_id(a, id) + count_id(b, id),
    decreases b.len(),
{
    if b.len() == 0 {
        assert(a + b =~= a);
    } else {
        lemma_count_concat(a, b.drop_last(), id);
        assert((a + b).drop_last() =~= a + b.drop_last());
        assert((a + b).last() == b.last());
    }
}

/// A transaction of one record produces exactly that record's pairs.
pub proof fn lemma_single_record(entries: Seq<EntryModel>, r: RecordModel)
    ensures
        matched_pairs(entries, seq![r]) == matches_for(entries, r),
{
    let rs = seq![r];
    assert(rs.drop_last() =~= Seq::<RecordModel>::empty());
    assert(rs.last() == r);
    assert(matched_pairs(entries, Seq::<RecordModel>::empty()) == Seq::<(u64, EventModel)>::empty());
    assert(matched_pairs(entries, rs) == matched_pairs(entries, rs.drop_last()) + matches_for(
        entries,
        rs.last(),
    ));
    assert(Seq::<(u64, EventModel)>::empty() + matches_for(entries, r) =~= matches_for(
        entries,
        r,
    ));
}

/// A batch that counts zero pairs for an id carries none for it.
pub proof fn lemma_count_zero_no_pair(pairs: Seq<(u64, EventModel)>, id: u64)
    requires
        count_id(pairs, id) == 0,
    ensures
        !has_pair_id(pairs, id),
    decreases pairs.len(),
{
    if pairs.len() > 0 {
        lemma_count_zero_no_pair(pairs.drop_last(), id);
        assert forall|k: int| 0 <= k < pairs.len() implies (#[trigger] pairs[k]).0 != id by {
            if k < pairs.len() - 1 {
                assert(pairs[k] == pairs.drop_last()[k]);
            }
        }
    }
}

/// Law: a watch that no record of a committed transaction matches gets no
/// pair from it — neither an event nor, by `ingest`'s contract, a purge of
/// its entry.
pub proof fn lemma_unmatched_watch_silent(
    entries: Seq<EntryModel>,
    records: Seq<RecordModel>,
    w: int,
)
    requires
        distinct_ids(entries),
        0 <= w < entries.len(),
        forall|j: int|
            0 <= j < records.len() ==> !entry_matches(entries[w], #[trigger] records[j]),
    ensures
        count_id(matched_pairs(entries, records), entries[w].id) == 0,
        !has_pair_id(matched_pairs(entries, records), entries[w].id),
    decreases records.len(),
{
    if records.len() > 0 {
        lemma_unmatched_watch_silent(entries, records.drop_last(), w);
        lemma_matches_for_exact(entries, records.last(), w);
        lemma_count_concat(
            matched_pairs(entries, records.drop_last()),
            matches_for(entries, records.last()),
            entries[w].id,
        );
    }
    lemma_count_zero_no_pair(matched_pairs(entries, records), entries[w].id);
}

/// Law: purging one dead watcher touches no other watch: every other
/// entry survives, and no entry with the purged watcher's id remains. With
/// `settle_delivery`'s contract — success preserves the registry, failure
/// purges exactly the dead entry — one watcher's failed delivery is
/// isolated from every other watcher's registration, and so, by
/// `lemma_unwatched_stays_silent`, from its future delivery.
pub proof fn lemma_purge_touches_only_the_dead(entries: Seq<EntryModel>, i: int)
    requires
        distinct_ids(entries),
        0 <= i < entries.len(),
    ensures
        entries.remove(i).len() == entries.len() - 1,
        forall|j: int|
            0 <= j < entries.len() && j != i ==> entries.remove(i).contains(#[trigger] entries[j]),
        forall|k: int|
            0 <= k < entries.remove(i).len() ==> (#[trigger] entries.remove(i)[k]).id
                != entries[i].id,
{
    entries.remove_ensures(i);
    assert forall|j: int| 0 <= j < entries.len() && j != i implies entries.remove(i).contains(
        #[trigger] entries[j],
    ) by {
        if j < i {
            assert(entries.remove(i)[j] == entries[j]);
        } else {
            assert(entries.remove(i)[j - 1] == entries[j]);
        }
    }
    assert forall|k: int|
        0 <= k < entries.remove(i).len() implies (#[trigger] entries.remove(i)[k]).id
        != entries[i].id by {
        if k < i {
            assert(entries.remove(i)[k] == entries[k]);
        } else {
            assert(entries.remove(i)[k] == entries[k + 1]);
        }
    }
}

/// Law: transactions produce their pairs in commit order — the pairs of
/// two transactions committed one after the other are the first's pairs
/// followed by the second's. Each per-watcher channel then yields its
/// events in that order, by the FIFO delivery the channel boundary relies
/// on; across different watchers no relative order is promised.
pub proof fn lemma_commits_in_order(
    entries: Seq<EntryModel>,
    first: Seq<RecordModel>,
    second: Seq<RecordModel>,
)
    ensures
        matched_pairs(entries, first + second) == matched_pairs(entries, first) + matched_pairs(
            entries,
            second,
        ),
    decreases second.len(),
{
    if second.len() == 0 {
        assert(first + second =~= first);
        assert(matched_pairs(entries, second) == Seq::<(u64, EventModel)>::empty());
        assert(matched_pairs(entries, first) + matched_pairs(entries, second) =~= matched_pairs(
            entries,
            first,
        ));
    } else {
        lemma_commits_in_order(entries, first, second.drop_last());
        assert((first + second).drop_last() =~= first + second.drop_last());
        assert((first + second).last() == second.last());
        assert((matched_pairs(entries, first) + matched_pairs(entries, second.drop_last()))
            + matches_for(entries, second.last()) =~= matched_pairs(entries, first) + (
        matched_pairs(entries, second.drop_last()) + matches_for(entries, second.last())));
    }
}

/// Law: once `unwatch` (or the dispatcher's purge) has removed a watch, so
/// that no entry carries its id any more, no further committed transaction
/// — whatever records it holds — produces a pair for that id, so nothing
/// more is ever sent to the watch's channel.
pub proof fn lemma_unwatched_stays_silent(
    entries: Seq<EntryModel>,
    records: Seq<RecordModel>,
    id: u64,
)
    requires
        forall|i: int| 0 <= i < entries.len() ==> (#[trigger] entries[i].id) != id,
    ensures
        count_id(matched_pairs(entries, records), id) == 0,
    decreases records.len(),
{
    if records.len() > 0 {
        lemma_unwatched_stays_silent(entries, records.drop_last(), id);
        lemma_matches_for_absent(entries, records.last(), id);
        lemma_count_concat(
            matched_pairs(entries, records.drop_last()),
            matches_for(entries, records.last()),
            id,
        );
    }
}

/// Law: a registered primary-key watch receives exactly one event from a
/// committed transaction inserting one record with the watched table and
/// primary key — an `Insert` event carrying the record's table and
/// snapshots — and any primary-key watch bound to a different table or to
/// a different key value receives none from it.
pub proof fn lemma_primary_insert_delivers(entries: Seq<EntryModel>, r: RecordModel, w: int)
    requires
        distinct_ids(entries),
        0 <= w < entries.len(),
        entries[w].selector is Primary,
        r.op is Insert,
        r.table == entries[w].table,
        r.new is Some,
        r.new->0.primary == entries[w].key,
    ensures
        count_id(matched_pairs(entries, seq![r]), entries[w].id) == 1,
        forall|k: int|
            0 <= k < matched_pairs(entries, seq![r]).len() ==> (#[trigger] matched_pairs(
                entries,
                seq![r],
            )[k]).1 == event_of(r) && matched_pairs(entries, seq![r])[k].1.op is Insert,
        forall|j: int|
            0 <= j < entries.len() && (#[trigger] entries[j].selector) is Primary && (
            entries[j].table != r.table || entries[j].key != r.new->0.primary) ==> count_id(
                matched_pairs(entries, seq![r]),
                entries[j].id,
            ) == 0,
        forall|j: int|
            0 <= j < entries.len() && (#[trigger] entries[j].table) != r.table ==> count_id(
                matched_pairs(entries, seq![r]),
                entries[j].id,
            ) == 0,
{
    lemma_single_record(entries, r);
    assert(entry_matches(entries[w], r));
    lemma_matches_for_exact(entries, r, w);
    lemma_matches_for_event(entries, r);
    assert forall|j: int|
        0 <= j < entries.len() && ((entries[j].selector is Primary && (entries[j].table != r.table
            || entries[j].key != r.new->0.primary)) || (#[trigger] entries[j].table)
            != r.table) implies count_id(matched_pairs(entries, seq![r]), entries[j].id) == 0 by {
        assert(!entry_matches(entries[j], r));
        lemma_matches_for_exact(entries, r, j);
    }
}

/// Law: a secondary-key watch on index `index` with target value `key`
/// receives exactly one event from a committed transaction updating one
/// record of the watched table whose value under that index changes away
/// from `key` (it was `key` in the old snapshot) — an `Update` event
/// carrying both snapshots.
pub proof fn lemma_secondary_update_delivers(
    entries: Seq<EntryModel>,
    r: RecordModel,
    w: int,
    index: u64,
)
    requires
        distinct_ids(entries),
        0 <= w < entries.len(),
        entries[w].selector == KeySelector::Secondary(index),
        r.op is Update,
        r.table == entries[w].table,
        r.old is Some,
        sec_lookup(r.old->0.secondaries, index) == Some(entries[w].key),
    ensures
        count_id(matched_pairs(entries, seq![r]), entries[w].id) == 1,
        forall|k: int|
            0 <= k < matched_pairs(entries, seq![r]).len() ==> (#[trigger] matched_pairs(
                entries,
                seq![r],
            )[k]).1 == event_of(r) && matched_pairs(entries, seq![r])[k].1.op is Update,
{
    lemma_single_record(entries, r);
    assert(record_matches(entries[w].selector, entries[w].key, r));
    assert(entry_matches(entries[w], r));
    lemma_matches_for_exact(entries, r, w);
    lemma_matches_for_event(entries, r);
}

/// Law: a secondary-key watch on index `index` with target value `key`
/// receives nothing from a committed transaction updating one record that
/// stores `key` under that index in neither its old nor its new snapshot —
/// an update not touching the watched value produces no event for it.
pub proof fn lemma_secondary_update_untouched(
    entries: Seq<EntryModel>,
    r: RecordModel,
    w: int,
    index: u64,
)
    requires
        distinct_ids(entries),
        0 <= w < entries.len(),
        entries[w].selector == KeySelector::Secondary(index),
        r.op is Update,
        !(r.old is Some && sec_lookup(r.old->0.secondaries, index) == Some(entries[w].key)),
        !(r.new is Some && sec_lookup(r.new->0.secondaries, index) == Some(entries[w].key)),
    ensures
        count_id(matched_pairs(entries, seq![r]), entries[w].id) == 0,
{
    lemma_single_record(entries, r);
    assert(!record_matches(entries[w].selector, entries[w].key, r));
    assert(!entry_matches(entries[w], r));
    lemma_matches_for_exact(entries, r, w);
}

} // verus!
