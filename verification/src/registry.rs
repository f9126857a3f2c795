//! The watch registry: owns the active watch entries and allocates watcher
//! ids. Ids are handed out from a strictly increasing counter and are never
//! reused, so a cancelled watch can never silently resume under a colliding
//! id.

use vstd::prelude::*;

use crate::channel::{event_channel, MpscReceiver};
use crate::model::{EntryModel, Event, KeySelector, WatchError};

verus! {

/// One active subscription. Owned exclusively by the registry: clients hold
/// only the paired receiver and the watcher id, never the entry itself.
pub struct WatchEntry {
    pub id: u64,
    pub table: u64,
    pub selector: KeySelector,
    pub target_key: Vec<u8>,
    pub sender: std::sync::mpsc::Sender<Event>,
}

impl View for WatchEntry {
    type V = EntryModel;

    open spec fn view(&self) -> EntryModel {
        EntryModel { id: self.id, table: self.table, selector: self.selector, key: self.target_key@ }
    }
}

/// The watch registry: the active entries, in registration order, and the
/// next fresh watcher id.
pub struct Watchers {
    pub entries: Vec<WatchEntry>,
    pub next_id: u64,
}

impl View for Watchers {
    type V = Seq<EntryModel>;

    open spec fn view(&self) -> Seq<EntryModel> {
        self.entries@.map_values(|e: WatchEntry| e@)
    }
}

impl Watchers {
    /// Well-formedness: watcher ids are pairwise distinct, and every id in
    /// the registry was allocated below the counter, so a fresh id can never
    /// collide with a live entry.
    pub open spec fn wf(&self) -> bool {
        &&& forall|i: int, j: int|
            0 <= i < j < self@.len() ==> #[trigger] self@[i].id != #[trigger] self@[j].id
        &&& forall|i: int| 0 <= i < self@.len() ==> #[trigger] self@[i].id < self.next_id
    }

    /// Whether some entry carries the given watcher id.
    pub open spec fn has_id(&self, id: u64) -> bool {
        exists|i: int| 0 <= i < self@.len() && #[trigger] self@[i].id == id
    }

    /// An empty registry; the id counter starts at zero.
    pub fn new() -> (r: Watchers)
        ensures
            r.wf(),
            r@ == Seq::<EntryModel>::empty(),
            r.next_id == 0,
    {
        let w = Watchers { entries: Vec::new(), next_id: 0 };
        proof {
            assert(w@ =~= Seq::<EntryModel>::empty());
        }
        w
    }

    /// How many watches are active.
    pub fn watcher_count(&self) -> (n: usize)
        ensures
            n == self@.len(),
    {
        self.entries.len()
    }

    /// Allocates a fresh id, creates the delivery channel, stores the entry,
    /// and returns the receiving end together with the new id. Registration
    /// never fails; the id counter is the only shared allocation state.
    pub fn register(&mut self, table: u64, selector: KeySelector, target_key: Vec<u8>) -> (r: (
        MpscReceiver<Event>,
        u64,
    ))
        requires
            old(self).wf(),
            old(self).next_id < u64::MAX,
        ensures
            final(self).wf(),
            r.1 == old(self).next_id,
            final(self).next_id == old(self).next_id + 1,
            final(self)@ == old(self)@.push(
                EntryModel { id: r.1, table, selector, key: target_key@ },
            ),
    {
        let id = self.next_id;
        self.next_id = self.next_id + 1;
        let (sender, receiver) = event_channel();
        let ghost target = target_key@;
        let entry = WatchEntry { id, table, selector, target_key, sender };
        self.entries.push(entry);
        proof {
            assert(self@ =~= old(self)@.push(EntryModel { id, table, selector, key: target }));
        }
        (receiver, id)
    }

    /// Removes the entry registered under `id`. Fails with
    /// `WatchError::NotFound` when no such entry exists: the id was never
    /// issued, was already cancelled, or was purged after its receiver was
    /// dropped.
    pub fn unwatch(&mut self, id: u64) -> (r: Result<(), WatchError>)
        requires
            old(self).wf(),
        ensures
            final(self).wf(),
            final(self).next_id == old(self).next_id,
            r is Ok <==> old(self).has_id(id),
            !final(self).has_id(id),
            match r {
                Ok(()) => exists|i: int|
                    0 <= i < old(self)@.len() && (#[trigger] old(self)@[i].id) == id
                        && final(self)@ == old(self)@.remove(i),
                Err(e) => e == WatchError::NotFound && final(self)@ == old(self)@,
            },
    {
        let ghost prev = self@;
        let mut i: usize = 0;
        while i < self.entries.len()
            invariant
                old(self).wf(),
                *self == *old(self),
                prev == self@,
                i <= self.entries.len(),
                forall|k: int| 0 <= k < i ==> (#[trigger] self@[k].id) != id,
            decreases self.entries.len() - i,
        {
            if self.entries[i].id == id {
                proof {
                    assert(prev.len() == self.entries@.len());
                    assert(prev[i as int].id == id);
                    assert(old(self)@[i as int].id == id);
                }
                self.entries.remove(i);
                proof {
                    assert(self@ =~= prev.remove(i as int));
                    lemma_remove_keeps_wf(prev, old(self).next_id, i as int);
                    prev.remove_ensures(i as int);
                    assert forall|k: int| 0 <= k < self@.len() implies (#[trigger] self@[k].id)
                        != id by {
                        if k >= i {
                            assert(self@[k] == prev[k + 1]);
                            assert(prev[k + 1].id != prev[i as int].id);
                        }
                    }
                }
                return Ok(());
            }
            i = i + 1;
        }
        Err(WatchError::NotFound)
    }

    /// Cleanup used by the dispatcher after a send failed because the
    /// receiver was dropped. Semantically `unwatch`, but idempotent: removing
    /// an id that is already gone does nothing and does not fail.
    pub fn remove_dead(&mut self, id: u64)
        requires
            old(self).wf(),
        ensures
            final(self).wf(),
            final(self).next_id == old(self).next_id,
            !final(self).has_id(id),
            old(self).has_id(id) ==> exists|i: int|
                0 <= i < old(self)@.len() && (#[trigger] old(self)@[i].id) == id && final(self)@
                    == old(self)@.remove(i),
            !old(self).has_id(id) ==> final(self)@ == old(self)@,
    {
        let _ignored = self.unwatch(id);
    }

    /// The positions, in registration order, of the entries bound to one
    /// table: exactly those the event matcher must scan for a record of that
    /// table.
    pub fn entries_for(&self, table: u64) -> (idxs: Vec<usize>)
        ensures
            forall|k: int|
                0 <= k < idxs@.len() ==> idxs@[k] < self@.len() && (#[trigger] self@[
                    idxs@[k] as int
                ].table) == table,
            forall|k1: int, k2: int|
                0 <= k1 < k2 < idxs@.len() ==> #[trigger] idxs@[k1] < #[trigger] idxs@[k2],
            forall|i: int|
                0 <= i < self@.len() && (#[trigger] self@[i].table) == table ==> exists|k: int|
                    0 <= k < idxs@.len() && #[trigger] idxs@[k] == i,
    {
        let mut idxs: Vec<usize> = Vec::new();
        let mut i: usize = 0;
        while i < self.entries.len()
            invariant
                i <= self.entries.len(),
                forall|k: int|
                    0 <= k < idxs@.len() ==> (#[trigger] idxs@[k]) < i && self@[
                        idxs@[k] as int
                    ].table == table,
                forall|k1: int, k2: int|
                    0 <= k1 < k2 < idxs@.len() ==> #[trigger] idxs@[k1] < #[trigger] idxs@[k2],
                forall|j: int|
                    0 <= j < i && (#[trigger] self@[j].table) == table ==> exists|k: int|
                        0 <= k < idxs@.len() && #[trigger] idxs@[k] == j,
            decreases self.entries.len() - i,
        {
            if self.entries[i].table == table {
                let ghost prev_idxs = idxs@;
                idxs.push(i);
                proof {
                    assert forall|k: int|
                        0 <= k < idxs@.len() implies (#[trigger] idxs@[k]) < i + 1 && self@[
                        idxs@[k] as int
                    ].table == table by {
                        if k < prev_idxs.len() {
                            assert(idxs@[k] == prev_idxs[k]);
                        } else {
                            assert(idxs@[k] == i);
                        }
                    }
                    assert forall|k1: int, k2: int|
                        0 <= k1 < k2 < idxs@.len() implies #[trigger] idxs@[k1] < #[trigger] idxs@[
                        k2
                    ] by {
                        assert(idxs@[k1] == prev_idxs[k1]);
                        if k2 < prev_idxs.len() {
                            assert(idxs@[k2] == prev_idxs[k2]);
                        } else {
                            assert(idxs@[k2] == i);
                        }
                    }
                    assert forall|j: int|
                        0 <= j < i + 1 && (#[trigger] self@[j].table) == table implies exists|
                        k: int,
                    | 0 <= k < idxs@.len() && #[trigger] idxs@[k] == j by {
                        if j < i {
                            let k0 = choose|k0: int|
                                0 <= k0 < prev_idxs.len() && #[trigger] prev_idxs[k0] == j;
                            assert(idxs@[k0] == j);
                        } else {
                            assert(idxs@[prev_idxs.len() as int] == i);
                        }
                    }
                }
            }
            i = i + 1;
        }
        idxs
    }

    /// The position of the entry carrying `id`, if one is registered.
    pub fn find_index(&self, id: u64) -> (r: Option<usize>)
        ensures
            match r {
                Some(i) => i < self@.len() && self@[i as int].id == id,
                None => !self.has_id(id),
            },
    {
        let mut i: usize = 0;
        while i < self.entries.len()
            invariant
                i <= self.entries.len(),
                forall|k: int| 0 <= k < i ==> (#[trigger] self@[k].id) != id,
            decreases self.entries.len() - i,
        {
            if self.entries[i].id == id {
                return Some(i);
            }
            i = i + 1;
        }
        None
    }
}

/// Removing any one position from a sequence of entries with pairwise
/// distinct, bounded ids leaves the ids pairwise distinct and bounded.
pub proof fn lemma_remove_keeps_wf(s: Seq<EntryModel>, bound: u64, i: int)
    requires
        0 <= i < s.len(),
        forall|p: int, q: int| 0 <= p < q < s.len() ==> #[trigger] s[p].id != #[trigger] s[q].id,
        forall|p: int| 0 <= p < s.len() ==> #[trigger] s[p].id < bound,
    ensures
        forall|p: int, q: int|
            0 <= p < q < s.remove(i).len() ==> #[trigger] s.remove(i)[p].id != #[trigger] s.remove(
                i,
            )[q].id,
        forall|p: int| 0 <= p < s.remove(i).len() ==> #[trigger] s.remove(i)[p].id < bound,
{
    s.remove_ensures(i);
    assert forall|p: int, q: int| 0 <= p < q < s.remove(i).len() implies #[trigger] s.remove(
        i,
    )[p].id != #[trigger] s.remove(i)[q].id by {
        let p0: int = if p < i { p } else { p + 1 };
        let q0: int = if q < i { q } else { q + 1 };
        assert(s.remove(i)[p] == s[p0]);
        assert(s.remove(i)[q] == s[q0]);
    }
}

} // verus!
