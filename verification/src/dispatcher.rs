//! The dispatcher and the ingestion call.
//!
//! For every matched `(watcher id, event)` pair the dispatcher looks the
//! entry up again — tolerant of it having been removed since matching —
//! and attempts delivery. Channels are unbounded, so a send never blocks
//! the committing writer and is never dropped for want of room; a send
//! fails only when the receiver was dropped. What each outcome does to the
//! registry is the verified `settle_delivery` step: success preserves the
//! entry, failure purges it, so later transactions skip the dead watcher.
//! No delivery outcome ever propagates to another watcher or to the
//! committing transaction.

use vstd::prelude::*;

use crate::channel::send_event;
use crate::matcher::{matched_pairs, pairs_view, records_view};
use crate::model::{dup_event, ChangeRecord, EntryModel, Event, EventModel};
use crate::registry::Watchers;

verus! {

/// Whether some pair carries the given watcher id.
pub open spec fn has_pair_id(pairs: Seq<(u64, EventModel)>, id: u64) -> bool {
    exists|k: int| 0 <= k < pairs.len() && (#[trigger] pairs[k]).0 == id
}

/// An element of a sequence of entries with a different id than the one
/// removed at `i` is still an element afterwards.
proof fn lemma_remove_still_contains(s: Seq<EntryModel>, i: int, x: EntryModel)
    requires
        0 <= i < s.len(),
        s.contains(x),
        x.id != s[i].id,
    ensures
        s.remove(i).contains(x),
{
    let m = choose|m: int| 0 <= m < s.len() && s[m] == x;
    s.remove_ensures(i);
    if m < i {
        assert(s.remove(i)[m] == x);
    } else {
        assert(s.remove(i)[m - 1] == x);
    }
}

impl Watchers {
    /// The per-delivery outcome step, one call below the send: what the
    /// dispatcher does with what the channel reported for watcher `id`. A
    /// delivered event leaves the registry exactly as it was; a failed send
    /// means the receiver was dropped, and purges that watcher's entry —
    /// whole, and alone, so the stale entry is corrected lazily and no
    /// other watch is touched. Purging an entry that is already gone does
    /// nothing.
    pub fn settle_delivery(&mut self, delivered: bool, id: u64)
        requires
            old(self).wf(),
        ensures
            final(self).wf(),
            final(self).next_id == old(self).next_id,
            delivered ==> final(self)@ == old(self)@,
            !delivered ==> !final(self).has_id(id),
            !delivered && old(self).has_id(id) ==> exists|i: int|
                0 <= i < old(self)@.len() && (#[trigger] old(self)@[i].id) == id && final(self)@
                    == old(self)@.remove(i),
            !delivered && !old(self).has_id(id) ==> final(self)@ == old(self)@,
    {
        if !delivered {
            self.remove_dead(id);
        }
    }

    /// Dispatcher: attempts delivery of each matched pair. Per pair it does
    /// a bounded, constant amount of work: one registry lookup (a pair whose
    /// entry is already gone is skipped, not an error), one non-blocking
    /// send, and one `settle_delivery` step, whose contract states what
    /// each send outcome does to the registry: success preserves the entry,
    /// failure — the receiver was dropped — purges it. The registry only
    /// ever shrinks here: no entry is added or changed, the id counter
    /// stands, and every entry whose id is not named by `pairs` survives.
    pub fn dispatch(&mut self, pairs: &Vec<(u64, Event)>)
        requires
            old(self).wf(),
        ensures
            final(self).wf(),
            final(self).next_id == old(self).next_id,
            final(self)@.len() <= old(self)@.len(),
            forall|i: int|
                0 <= i < final(self)@.len() ==> old(self)@.contains(#[trigger] final(self)@[i]),
            forall|i: int|
                0 <= i < old(self)@.len() && !has_pair_id(
                    pairs_view(pairs@),
                    (#[trigger] old(self)@[i]).id,
                ) ==> final(self)@.contains(old(self)@[i]),
    {
        let ghost pv = pairs_view(pairs@);
        let mut k: usize = 0;
        while k < pairs.len()
            invariant
                pv == pairs_view(pairs@),
                k <= pairs.len(),
                self.wf(),
                self.next_id == old(self).next_id,
                self@.len() <= old(self)@.len(),
                forall|i: int| 0 <= i < self@.len() ==> old(self)@.contains(#[trigger] self@[i]),
                forall|i: int|
                    0 <= i < old(self)@.len() && !has_pair_id(pv, (#[trigger] old(self)@[i]).id)
                        ==> self@.contains(old(self)@[i]),
            decreases pairs.len() - k,
        {
            let id = pairs[k].0;
            proof {
                assert(pv[k as int].0 == id);
            }
            match self.find_index(id) {
                Some(i) => {
                    let ev = dup_event(&pairs[k].1);
                    let delivered = send_event(&self.entries[i].sender, ev);
                    let ghost cur = self@;
                    self.settle_delivery(delivered, id);
                    if !delivered {
                        proof {
                            assert(cur[i as int].id == id);
                            if exists|m: int| 0 <= m < cur.len() && (#[trigger] cur[m].id) == id {
                                let r = choose|r: int|
                                    0 <= r < cur.len() && (#[trigger] cur[r].id) == id && self@
                                        == cur.remove(r);
                                cur.remove_ensures(r);
                                assert forall|i2: int|
                                    0 <= i2 < self@.len() implies old(self)@.contains(
                                    #[trigger] self@[i2],
                                ) by {
                                    if i2 < r {
                                        assert(self@[i2] == cur[i2]);
                                    } else {
                                        assert(self@[i2] == cur[i2 + 1]);
                                    }
                                }
                                assert forall|i2: int|
                                    0 <= i2 < old(self)@.len() && !has_pair_id(
                                    pv,
                                    (#[trigger] old(self)@[i2]).id,
                                ) implies self@.contains(old(self)@[i2]) by {
                                    let x = old(self)@[i2];
                                    assert(cur.contains(x));
                                    assert(has_pair_id(pv, id));
                                    assert(x.id != id);
                                    lemma_remove_still_contains(cur, r, x);
                                }
                            }
                        }
                    }
                },
                None => {},
            }
            k = k + 1;
        }
    }

    /// Ingestion call, invoked by the storage engine exactly once per
    /// committed transaction, after its durability point, with the
    /// transaction's change records in order: matches the records against
    /// the registry and dispatches the resulting events. Commit never waits
    /// on a consumer, and the only registry change is the purge of watchers
    /// whose receiver was dropped — all of which the transaction's own
    /// matched pairs name, each settled per send outcome by
    /// `settle_delivery`: a watcher whose send succeeded, and every watcher
    /// the transaction does not match, keeps its entry untouched.
    pub fn ingest(&mut self, records: &Vec<ChangeRecord>)
        requires
            old(self).wf(),
        ensures
            final(self).wf(),
            final(self).next_id == old(self).next_id,
            final(self)@.len() <= old(self)@.len(),
            forall|i: int|
                0 <= i < final(self)@.len() ==> old(self)@.contains(#[trigger] final(self)@[i]),
            forall|i: int|
                0 <= i < old(self)@.len() && !has_pair_id(
                    matched_pairs(old(self)@, records_view(records@)),
                    (#[trigger] old(self)@[i]).id,
                ) ==> final(self)@.contains(old(self)@[i]),
    {
        let pairs = self.match_transaction(records);
        self.dispatch(&pairs);
    }
}

} // verus!
