//! The key matcher and the event matcher.
//!
//! The key matcher is pure comparison logic: whether a change record's
//! primary or secondary key bytes equal a watch's target key bytes,
//! byte-exact, never partial. The event matcher runs it over every
//! registered entry for each record of one committed transaction and
//! produces the `(watcher id, event)` pairs to dispatch, in input-record
//! order.

use vstd::prelude::*;

use crate::model::{
    ChangeRecord, EntryModel, Event, EventModel, KeySelector, Op, RecordModel, RecordSnapshot,
    sec_lookup, snap_key,
};
use crate::registry::Watchers;

verus! {

/// The event a matched record gives rise to: the record's operation kind,
/// table, and both key snapshots, so the consumer sees what changed.
pub open spec fn event_of(r: RecordModel) -> EventModel {
    EventModel { op: r.op, table: r.table, old: r.old, new: r.new }
}

/// Whether a watch observing `selector` with canonical target bytes `key`
/// matches change record `r`. Inserts are matched on the new snapshot,
/// deletes on the old one. Updates are matched on the new snapshot for a
/// primary-key watch, and on either snapshot for a secondary-key watch, so
/// that changing an indexed column away from, or to, the watched value is
/// seen. A record without the snapshot a selector needs is skipped, never
/// treated as a match.
pub open spec fn record_matches(selector: KeySelector, key: Seq<u8>, r: RecordModel) -> bool {
    match r.op {
        Op::Insert => r.new is Some && snap_key(selector, r.new->0) == Some(key),
        Op::Delete => r.old is Some && snap_key(selector, r.old->0) == Some(key),
        Op::Update => match selector {
            KeySelector::Primary => r.new is Some && snap_key(selector, r.new->0) == Some(key),
            KeySelector::Secondary(_) => (r.old is Some && snap_key(selector, r.old->0) == Some(
                key,
            )) || (r.new is Some && snap_key(selector, r.new->0) == Some(key)),
        },
    }
}

/// Whether a registry entry matches a change record: same table, and the
/// entry's target key equals the record's key under the entry's selector.
pub open spec fn entry_matches(e: EntryModel, r: RecordModel) -> bool {
    e.table == r.table && record_matches(e.selector, e.key, r)
}

/// The pairs one change record produces against a registry: one
/// `(watcher id, event)` pair per matching entry, in registry order.
pub open spec fn matches_for(entries: Seq<EntryModel>, r: RecordModel) -> Seq<(u64, EventModel)>
    decreases entries.len(),
{
    if entries.len() == 0 {
        Seq::empty()
    } else {
        let head = matches_for(entries.drop_last(), r);
        if entry_matches(entries.last(), r) {
            head.push((entries.last().id, event_of(r)))
        } else {
            head
        }
    }
}

/// The pairs one committed transaction produces: the concatenation, in
/// input order, of each record's pairs.
pub open spec fn matched_pairs(entries: Seq<EntryModel>, records: Seq<RecordModel>) -> Seq<
    (u64, EventModel),
>
    decreases records.len(),
{
    if records.len() == 0 {
        Seq::empty()
    } else {
        matched_pairs(entries, records.drop_last()) + matches_for(entries, records.last())
    }
}

/// Models of a sequence of change records.
pub open spec fn records_view(s: Seq<ChangeRecord>) -> Seq<RecordModel> {
    s.map_values(|r: ChangeRecord| r@)
}

/// Models of a sequence of `(watcher id, event)` pairs.
pub open spec fn pairs_view(s: Seq<(u64, Event)>) -> Seq<(u64, EventModel)> {
    s.map_values(|p: (u64, Event)| (p.0, p.1@))
}

/// The first secondary key `snap` stores under `index`, by reference.
fn find_secondary<'a>(snap: &'a RecordSnapshot, index: u64) -> (r: Option<&'a Vec<u8>>)
    ensures
        match r {
            Some(b) => sec_lookup(snap@.secondaries, index) == Some(b@),
            None => sec_lookup(snap@.secondaries, index) is None,
        },
{
    let ghost s = snap@.secondaries;
    proof {
        assert(s.skip(0) =~= s);
    }
    let mut i: usize = 0;
    while i < snap.secondaries.len()
        invariant
            s == snap@.secondaries,
            i <= snap.secondaries.len(),
            sec_lookup(s, index) == sec_lookup(s.skip(i as int), index),
        decreases snap.secondaries.len() - i,
    {
        if snap.secondaries[i].index == index {
            proof {
                assert(s.skip(i as int)[0] == s[i as int]);
            }
            return Some(&snap.secondaries[i].bytes);
        }
        proof {
            assert(s.skip(i as int)[0] == s[i as int]);
            assert(s.skip(i as int).drop_first() =~= s.skip(i as int + 1));
        }
        i = i + 1;
    }
    proof {
        assert(s.skip(s.len() as int).len() == 0);
    }
    None
}

/// Whether the key `selector` observes in `snap` equals `target`,
/// byte-exact.
fn snapshot_matches(selector: KeySelector, target: &Vec<u8>, snap: &RecordSnapshot) -> (b: bool)
    ensures
        b == (snap_key(selector, snap@) == Some(target@)),
{
    match selector {
        KeySelector::Primary => {
            let eq = snap.primary == *target;
            proof {
                if eq {
                    assert(snap.primary@ =~= target@);
                } else {
                    if snap.primary@ == target@ {
                        assert(eq);
                    }
                }
            }
            eq
        },
        KeySelector::Secondary(index) => {
            match find_secondary(snap, index) {
                Some(bytes) => {
                    let eq = *bytes == *target;
                    proof {
                        if eq {
                            assert(bytes@ =~= target@);
                        } else {
                            if bytes@ == target@ {
                                assert(eq);
                            }
                        }
                    }
                    eq
                },
                None => false,
            }
        },
    }
}

/// Key Matcher: whether a watch on `selector` with canonical target bytes
/// `target` matches `record`. Pure; no shared state.
pub fn key_matches(selector: KeySelector, target: &Vec<u8>, record: &ChangeRecord) -> (b: bool)
    ensures
        b == record_matches(selector, target@, record@),
{
    match record.op {
        Op::Insert => match &record.new {
            Some(s) => snapshot_matches(selector, target, s),
            None => false,
        },
        Op::Delete => match &record.old {
            Some(s) => snapshot_matches(selector, target, s),
            None => false,
        },
        Op::Update => match selector {
            KeySelector::Primary => match &record.new {
                Some(s) => snapshot_matches(selector, target, s),
                None => false,
            },
            KeySelector::Secondary(_) => {
                let old_hit = match &record.old {
                    Some(s) => snapshot_matches(selector, target, s),
                    None => false,
                };
                if old_hit {
                    true
                } else {
                    match &record.new {
                        Some(s) => snapshot_matches(selector, target, s),
                        None => false,
                    }
                }
            },
        },
    }
}

/// Builds the event `record` gives rise to.
pub fn event_of_record(record: &ChangeRecord) -> (ev: Event)
    ensures
        ev@ == event_of(record@),
{
    Event {
        op: record.op,
        table: record.table,
        old: crate::model::dup_snap_opt(&record.old),
        new: crate::model::dup_snap_opt(&record.new),
    }
}

impl Watchers {
    /// Event Matcher: matches one committed transaction's change records
    /// against every registered watch and returns the `(watcher id, event)`
    /// pairs to deliver. Pairs appear in the order of the input records;
    /// within one record, in registration order.
    pub fn match_transaction(&self, records: &Vec<ChangeRecord>) -> (pairs: Vec<(u64, Event)>)
        ensures
            pairs_view(pairs@) == matched_pairs(self@, records_view(records@)),
    {
        let ghost es = self@;
        let ghost rs = records_view(records@);
        let mut pairs: Vec<(u64, Event)> = Vec::new();
        let mut j: usize = 0;
        while j < records.len()
            invariant
                es == self@,
                rs == records_view(records@),
                j <= records.len(),
                pairs_view(pairs@) == matched_pairs(es, rs.take(j as int)),
            decreases records.len() - j,
        {
            let record = &records[j];
            let mut i: usize = 0;
            while i < self.entries.len()
                invariant
                    es == self@,
                    rs == records_view(records@),
                    j < records.len(),
                    record == &records[j as int],
                    record@ == rs[j as int],
                    i <= self.entries.len(),
                    pairs_view(pairs@) == matched_pairs(es, rs.take(j as int)) + matches_for(
                        es.take(i as int),
                        record@,
                    ),
                decreases self.entries.len() - i,
            {
                let ghost prev_pairs = pairs@;
                let e = &self.entries[i];
                proof {
                    assert(es[i as int] == e@);
                }
                if e.table == record.table && key_matches(e.selector, &e.target_key, record) {
                    let ev = event_of_record(record);
                    let ghost evm = ev@;
                    pairs.push((e.id, ev));
                    proof {
                        assert(pairs_view(pairs@) =~= pairs_view(prev_pairs).push(
                            (e.id, evm),
                        ));
                    }
                }
                proof {
                    assert(es.take(i as int + 1).drop_last() =~= es.take(i as int));
                    assert(es.take(i as int + 1).last() == es[i as int]);
                }
                i = i + 1;
            }
            proof {
                assert(es.take(es.len() as int) =~= es);
                assert(rs.take(j as int + 1).drop_last() =~= rs.take(j as int));
                assert(rs.take(j as int + 1).last() == rs[j as int]);
            }
            j = j + 1;
        }
        proof {
            assert(rs.take(rs.len() as int) =~= rs);
        }
        pairs
    }
}

} // verus!
