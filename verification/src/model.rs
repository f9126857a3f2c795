//! Value types shared by the registry, the matcher and the dispatcher:
//! operations, key selectors, record snapshots, change records and events,
//! together with their mathematical models.

use vstd::prelude::*;

verus! {

/// The kind of committed write that produced a change record or an event.
#[derive(Clone, Copy, PartialEq, Eq, Structural, Debug)]
pub enum Op {
    Insert,
    Update,
    Delete,
}

/// What a watch observes: the table's primary key, or the secondary key
/// whose index identifier the schema layer assigned.
#[derive(Clone, Copy, PartialEq, Eq, Structural, Debug)]
pub enum KeySelector {
    Primary,
    Secondary(u64),
}

/// Errors surfaced to clients of the watch subsystem.
#[derive(Clone, Copy, PartialEq, Eq, Structural, Debug)]
pub enum WatchError {
    /// `unwatch` was called with a watcher id that is not registered:
    /// never issued, already cancelled, or already purged.
    NotFound,
}

/// One secondary-key value of a record: the index identifier and the
/// canonical key bytes the record stores under that index.
pub struct SecondaryKey {
    pub index: u64,
    pub bytes: Vec<u8>,
}

/// Model of a `SecondaryKey`.
pub ghost struct SecModel {
    pub index: u64,
    pub bytes: Seq<u8>,
}

impl View for SecondaryKey {
    type V = SecModel;

    open spec fn view(&self) -> SecModel {
        SecModel { index: self.index, bytes: self.bytes@ }
    }
}

/// The keys of one record as they stood before or after a write: the
/// canonical primary key bytes and the full set of secondary key bytes.
pub struct RecordSnapshot {
    pub primary: Vec<u8>,
    pub secondaries: Vec<SecondaryKey>,
}

/// Model of a `RecordSnapshot`.
pub ghost struct SnapModel {
    pub primary: Seq<u8>,
    pub secondaries: Seq<SecModel>,
}

/// Models of a sequence of secondary keys.
pub open spec fn secs_view(s: Seq<SecondaryKey>) -> Seq<SecModel> {
    s.map_values(|x: SecondaryKey| x@)
}

impl View for RecordSnapshot {
    type V = SnapModel;

    open spec fn view(&self) -> SnapModel {
        SnapModel { primary: self.primary@, secondaries: secs_view(self.secondaries@) }
    }
}

/// Model of an optional snapshot.
pub open spec fn snap_of(o: Option<RecordSnapshot>) -> Option<SnapModel> {
    match o {
        Some(s) => Some(s@),
        None => None,
    }
}

/// One record's part in a committed transaction: which table it belongs to,
/// what kind of write touched it, and its keys before (`old`) and after
/// (`new`) the write. An `Insert` has no `old` snapshot and a `Delete` has
/// no `new` snapshot.
pub struct ChangeRecord {
    pub table: u64,
    pub op: Op,
    pub old: Option<RecordSnapshot>,
    pub new: Option<RecordSnapshot>,
}

/// Model of a `ChangeRecord`.
pub ghost struct RecordModel {
    pub table: u64,
    pub op: Op,
    pub old: Option<SnapModel>,
    pub new: Option<SnapModel>,
}

impl View for ChangeRecord {
    type V = RecordModel;

    open spec fn view(&self) -> RecordModel {
        RecordModel { table: self.table, op: self.op, old: snap_of(self.old), new: snap_of(self.new) }
    }
}

/// The notification delivered to a watcher: the operation kind, the table,
/// and the old and new key snapshots of the matched record.
pub struct Event {
    pub op: Op,
    pub table: u64,
    pub old: Option<RecordSnapshot>,
    pub new: Option<RecordSnapshot>,
}

/// Model of an `Event`.
pub ghost struct EventModel {
    pub op: Op,
    pub table: u64,
    pub old: Option<SnapModel>,
    pub new: Option<SnapModel>,
}

impl View for Event {
    type V = EventModel;

    open spec fn view(&self) -> EventModel {
        EventModel { table: self.table, op: self.op, old: snap_of(self.old), new: snap_of(self.new) }
    }
}

/// Model of one registered watch: its id, the table it is bound to, which
/// key it observes, and the canonical target key bytes it compares against.
pub ghost struct EntryModel {
    pub id: u64,
    pub table: u64,
    pub selector: KeySelector,
    pub key: Seq<u8>,
}

/// The secondary key bytes a snapshot stores under `index`: the first
/// occurrence, or `None` where the snapshot has no key for that index.
pub open spec fn sec_lookup(s: Seq<SecModel>, index: u64) -> Option<Seq<u8>>
    decreases s.len(),
{
    if s.len() == 0 {
        None
    } else if s[0].index == index {
        Some(s[0].bytes)
    } else {
        sec_lookup(s.drop_first(), index)
    }
}

/// The key bytes of `s` that `selector` observes, if the snapshot has them.
pub open spec fn snap_key(selector: KeySelector, s: SnapModel) -> Option<Seq<u8>> {
    match selector {
        KeySelector::Primary => Some(s.primary),
        KeySelector::Secondary(index) => sec_lookup(s.secondaries, index),
    }
}

/// A copy of a byte key with the same contents.
pub fn dup_bytes(b: &Vec<u8>) -> (r: Vec<u8>)
    ensures
        r@ == b@,
{
    let r = b.clone();
    proof {
        assert forall|i: int| 0 <= i < b@.len() implies r@[i] == b@[i] by {
            assert(cloned::<u8>(b@[i], r@[i]));
        }
        assert(r@ =~= b@);
    }
    r
}

/// A copy of a snapshot with the same model.
pub fn dup_snapshot(s: &RecordSnapshot) -> (r: RecordSnapshot)
    ensures
        r@ == s@,
{
    let primary = dup_bytes(&s.primary);
    let mut secondaries: Vec<SecondaryKey> = Vec::new();
    let mut i: usize = 0;
    while i < s.secondaries.len()
        invariant
            i <= s.secondaries.len(),
            secs_view(secondaries@) == s@.secondaries.take(i as int),
        decreases s.secondaries.len() - i,
    {
        let bytes = dup_bytes(&s.secondaries[i].bytes);
        let sk = SecondaryKey { index: s.secondaries[i].index, bytes };
        let ghost prev = secondaries@;
        proof {
            assert(sk@ == s@.secondaries[i as int]);
        }
        secondaries.push(sk);
        proof {
            assert(secondaries@ == prev.push(sk));
            assert(secs_view(prev) == s@.secondaries.take(i as int));
            assert(secs_view(prev).len() == prev.len());
            assert(prev.len() == i);
            assert(secondaries@.len() == i + 1);
            assert forall|k: int|
                0 <= k < i + 1 implies secs_view(secondaries@)[k] == s@.secondaries.take(
                i as int + 1,
            )[k] by {
                assert(secs_view(secondaries@)[k] == secondaries@[k]@);
                if k < i {
                    assert(secondaries@[k] == prev[k]);
                    assert(prev[k]@ == secs_view(prev)[k]);
                    assert(secs_view(prev)[k] == s@.secondaries.take(i as int)[k]);
                } else {
                    assert(secondaries@[k] == sk);
                }
            }
            assert(secs_view(secondaries@) =~= s@.secondaries.take(i as int + 1));
        }
        i = i + 1;
    }
    let r = RecordSnapshot { primary, secondaries };
    proof {
        assert(s@.secondaries.take(s.secondaries@.len() as int) =~= s@.secondaries);
        assert(r@ == s@);
    }
    r
}

/// A copy of an optional snapshot with the same model.
pub fn dup_snap_opt(o: &Option<RecordSnapshot>) -> (r: Option<RecordSnapshot>)
    ensures
        snap_of(r) == snap_of(*o),
{
    match o {
        Some(s) => Some(dup_snapshot(s)),
        None => None,
    }
}

/// A copy of an event with the same model, for per-delivery cloning.
pub fn dup_event(ev: &Event) -> (r: Event)
    ensures
        r@ == ev@,
{
    Event { op: ev.op, table: ev.table, old: dup_snap_opt(&ev.old), new: dup_snap_opt(&ev.new) }
}

} // verus!
