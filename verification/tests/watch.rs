use db_watch::get::WatchGet;
use db_watch::key::encode_u64_key;
use db_watch::model::{ChangeRecord, Event, Op, RecordSnapshot, SecondaryKey, WatchError};

fn snap(primary: Vec<u8>, secs: Vec<(u64, Vec<u8>)>) -> RecordSnapshot {
    let mut secondaries = Vec::new();
    for (index, bytes) in secs {
        secondaries.push(SecondaryKey { index, bytes });
    }
    RecordSnapshot { primary, secondaries }
}

fn insert_rec(table: u64, new: RecordSnapshot) -> ChangeRecord {
    ChangeRecord { table, op: Op::Insert, old: None, new: Some(new) }
}

fn update_rec(table: u64, old: RecordSnapshot, new: RecordSnapshot) -> ChangeRecord {
    ChangeRecord { table, op: Op::Update, old: Some(old), new: Some(new) }
}

fn delete_rec(table: u64, old: RecordSnapshot) -> ChangeRecord {
    ChangeRecord { table, op: Op::Delete, old: Some(old), new: None }
}

fn recv_one(rx: &std::sync::mpsc::Receiver<Event>) -> Event {
    match rx.try_recv() {
        Ok(ev) => ev,
        Err(_) => panic!("expected one event, channel was empty"),
    }
}

fn assert_empty(rx: &std::sync::mpsc::Receiver<Event>) {
    assert!(rx.try_recv().is_err(), "expected no further events");
}

#[test]
fn encode_u64_key_is_big_endian() {
    assert_eq!(encode_u64_key(1), vec![0, 0, 0, 0, 0, 0, 0, 1]);
    assert_eq!(
        encode_u64_key(0x0102030405060708),
        vec![1, 2, 3, 4, 5, 6, 7, 8]
    );
    assert_eq!(encode_u64_key(0), vec![0; 8]);
    assert_eq!(encode_u64_key(u64::MAX), vec![0xff; 8]);
}

#[test]
fn primary_insert_update_delete_then_unwatch() {
    let table = 1u64;
    let mut w = WatchGet::new();
    let (rx, id) = w.primary(table, encode_u64_key(1)).unwrap();

    w.watchers
        .ingest(&vec![insert_rec(table, snap(encode_u64_key(1), vec![]))]);
    let ev = recv_one(&rx);
    assert_eq!(ev.op, Op::Insert);
    assert_eq!(ev.table, table);
    assert_eq!(ev.new.as_ref().unwrap().primary, encode_u64_key(1));
    assert!(ev.old.is_none());
    assert_empty(&rx);

    w.watchers.ingest(&vec![update_rec(
        table,
        snap(encode_u64_key(1), vec![]),
        snap(encode_u64_key(1), vec![]),
    )]);
    let ev = recv_one(&rx);
    assert_eq!(ev.op, Op::Update);
    assert_eq!(ev.new.as_ref().unwrap().primary, encode_u64_key(1));
    assert_empty(&rx);

    w.watchers
        .ingest(&vec![delete_rec(table, snap(encode_u64_key(1), vec![]))]);
    let ev = recv_one(&rx);
    assert_eq!(ev.op, Op::Delete);
    assert_eq!(ev.old.as_ref().unwrap().primary, encode_u64_key(1));
    assert!(ev.new.is_none());
    assert_empty(&rx);

    assert!(w.unwatch(id).is_ok());
    w.watchers
        .ingest(&vec![insert_rec(table, snap(encode_u64_key(1), vec![]))]);
    assert_empty(&rx);
}

#[test]
fn primary_insert_reaches_only_the_matching_watch() {
    let mut w = WatchGet::new();
    let (rx_hit, _) = w.primary(1, encode_u64_key(5)).unwrap();
    let (rx_other_key, _) = w.primary(1, encode_u64_key(6)).unwrap();
    let (rx_other_table, _) = w.primary(2, encode_u64_key(5)).unwrap();

    w.watchers
        .ingest(&vec![insert_rec(1, snap(encode_u64_key(5), vec![]))]);

    let ev = recv_one(&rx_hit);
    assert_eq!(ev.op, Op::Insert);
    assert_empty(&rx_hit);
    assert_empty(&rx_other_key);
    assert_empty(&rx_other_table);
}

#[test]
fn two_watches_on_the_same_key_each_get_one_event() {
    let mut w = WatchGet::new();
    let (rx_a, id_a) = w.primary(1, encode_u64_key(9)).unwrap();
    let (rx_b, id_b) = w.primary(1, encode_u64_key(9)).unwrap();
    assert_ne!(id_a, id_b);

    w.watchers
        .ingest(&vec![insert_rec(1, snap(encode_u64_key(9), vec![]))]);

    recv_one(&rx_a);
    recv_one(&rx_b);
    assert_empty(&rx_a);
    assert_empty(&rx_b);
}

#[test]
fn secondary_update_away_from_watched_value() {
    let name_index = 10u64;
    let mut w = WatchGet::new();
    let (rx, _) = w
        .secondary(1, name_index, b"test".to_vec())
        .unwrap();

    // Update whose old value under the watched index is the watched value.
    w.watchers.ingest(&vec![update_rec(
        1,
        snap(encode_u64_key(3), vec![(name_index, b"test".to_vec())]),
        snap(encode_u64_key(3), vec![(name_index, b"later".to_vec())]),
    )]);
    let ev = recv_one(&rx);
    assert_eq!(ev.op, Op::Update);
    assert_eq!(
        ev.old.as_ref().unwrap().secondaries[0].bytes,
        b"test".to_vec()
    );
    assert_eq!(
        ev.new.as_ref().unwrap().secondaries[0].bytes,
        b"later".to_vec()
    );
    assert_empty(&rx);

    // Update that stores the watched value in neither snapshot.
    w.watchers.ingest(&vec![update_rec(
        1,
        snap(encode_u64_key(3), vec![(name_index, b"later".to_vec())]),
        snap(encode_u64_key(3), vec![(name_index, b"other".to_vec())]),
    )]);
    assert_empty(&rx);
}

#[test]
fn secondary_insert_other_then_update_to_watched_value() {
    let name_index = 10u64;
    let mut w = WatchGet::new();
    let (rx, _) = w
        .secondary(1, name_index, b"test".to_vec())
        .unwrap();

    w.watchers.ingest(&vec![insert_rec(
        1,
        snap(encode_u64_key(4), vec![(name_index, b"other".to_vec())]),
    )]);
    assert_empty(&rx);

    w.watchers.ingest(&vec![update_rec(
        1,
        snap(encode_u64_key(4), vec![(name_index, b"other".to_vec())]),
        snap(encode_u64_key(4), vec![(name_index, b"test".to_vec())]),
    )]);
    let ev = recv_one(&rx);
    assert_eq!(ev.op, Op::Update);
    assert_empty(&rx);
}

#[test]
fn secondary_watch_ignores_records_without_the_index() {
    let mut w = WatchGet::new();
    let (rx, _) = w.secondary(1, 10, b"test".to_vec()).unwrap();

    // The record has no key under index 10 at all.
    w.watchers.ingest(&vec![insert_rec(
        1,
        snap(encode_u64_key(4), vec![(11, b"test".to_vec())]),
    )]);
    assert_empty(&rx);
}

#[test]
fn unwatch_twice_reports_not_found() {
    let mut w = WatchGet::new();
    let (_rx, id) = w.primary(1, encode_u64_key(1)).unwrap();
    assert!(w.unwatch(id).is_ok());
    assert_eq!(w.unwatch(id), Err(WatchError::NotFound));
    assert_eq!(w.unwatch(12345), Err(WatchError::NotFound));
}

#[test]
fn unwatch_silences_only_that_watch() {
    let mut w = WatchGet::new();
    let (rx_gone, id_gone) = w.primary(1, encode_u64_key(1)).unwrap();
    let (rx_kept, _) = w.primary(1, encode_u64_key(1)).unwrap();

    assert!(w.unwatch(id_gone).is_ok());
    w.watchers
        .ingest(&vec![insert_rec(1, snap(encode_u64_key(1), vec![]))]);

    assert_empty(&rx_gone);
    recv_one(&rx_kept);
}

#[test]
fn watcher_ids_are_monotonic_and_never_reused() {
    let mut w = WatchGet::new();
    let (_rx_a, id_a) = w.primary(1, encode_u64_key(1)).unwrap();
    assert!(w.unwatch(id_a).is_ok());
    let (_rx_b, id_b) = w.primary(1, encode_u64_key(1)).unwrap();
    assert!(id_b > id_a);
}

#[test]
fn dropped_receiver_is_purged_on_next_matching_commit() {
    let mut w = WatchGet::new();
    let (rx, _) = w.primary(1, encode_u64_key(1)).unwrap();
    assert_eq!(w.watchers.watcher_count(), 1);
    drop(rx);

    // A commit touching an unrelated key does not reach the dead channel.
    w.watchers
        .ingest(&vec![insert_rec(1, snap(encode_u64_key(2), vec![]))]);
    assert_eq!(w.watchers.watcher_count(), 1);

    // The first matching commit fails the send and purges the entry.
    w.watchers
        .ingest(&vec![insert_rec(1, snap(encode_u64_key(1), vec![]))]);
    assert_eq!(w.watchers.watcher_count(), 0);
}

#[test]
fn settled_success_preserves_and_failure_purges() {
    let mut w = WatchGet::new();
    let (_rx_a, id_a) = w.primary(1, encode_u64_key(1)).unwrap();
    let (_rx_b, id_b) = w.primary(1, encode_u64_key(2)).unwrap();

    // A delivered event leaves the registry exactly as it was.
    w.watchers.settle_delivery(true, id_a);
    assert_eq!(w.watchers.watcher_count(), 2);

    // A failed send purges exactly the dead watcher's entry.
    w.watchers.settle_delivery(false, id_a);
    assert_eq!(w.watchers.watcher_count(), 1);
    assert_eq!(w.unwatch(id_a), Err(WatchError::NotFound));

    // Settling a failure for an id that is already gone does nothing.
    w.watchers.settle_delivery(false, id_a);
    assert_eq!(w.watchers.watcher_count(), 1);
    assert!(w.unwatch(id_b).is_ok());
}

#[test]
fn events_arrive_in_commit_order() {
    let mut w = WatchGet::new();
    let (rx, _) = w.primary(1, encode_u64_key(1)).unwrap();

    // Two transactions committed one after the other, each touching the
    // watched key: their events arrive in commit order on the one channel.
    w.watchers
        .ingest(&vec![insert_rec(1, snap(encode_u64_key(1), vec![]))]);
    w.watchers.ingest(&vec![update_rec(
        1,
        snap(encode_u64_key(1), vec![]),
        snap(encode_u64_key(1), vec![]),
    )]);

    assert_eq!(recv_one(&rx).op, Op::Insert);
    assert_eq!(recv_one(&rx).op, Op::Update);
    assert_empty(&rx);
}

#[test]
fn one_transaction_keeps_record_order() {
    let mut w = WatchGet::new();
    let (rx, _) = w.primary(1, encode_u64_key(1)).unwrap();

    w.watchers.ingest(&vec![
        insert_rec(1, snap(encode_u64_key(1), vec![])),
        delete_rec(1, snap(encode_u64_key(1), vec![])),
    ]);

    assert_eq!(recv_one(&rx).op, Op::Insert);
    assert_eq!(recv_one(&rx).op, Op::Delete);
    assert_empty(&rx);
}

#[test]
fn empty_transaction_produces_nothing() {
    let mut w = WatchGet::new();
    let (rx, _) = w.primary(1, encode_u64_key(1)).unwrap();
    w.watchers.ingest(&vec![]);
    assert_empty(&rx);
    assert_eq!(w.watchers.watcher_count(), 1);
}

#[test]
fn entries_for_lists_only_that_table() {
    let mut w = WatchGet::new();
    let (_rx_a, _) = w.primary(1, encode_u64_key(1)).unwrap();
    let (_rx_b, _) = w.primary(2, encode_u64_key(1)).unwrap();
    let (_rx_c, _) = w.primary(1, encode_u64_key(2)).unwrap();

    assert_eq!(w.watchers.entries_for(1), vec![0, 2]);
    assert_eq!(w.watchers.entries_for(2), vec![1]);
    assert_eq!(w.watchers.entries_for(3), Vec::<usize>::new());
}

#[test]
fn delete_matches_on_the_old_snapshot_only() {
    let mut w = WatchGet::new();
    let (rx, _) = w.primary(1, encode_u64_key(8)).unwrap();

    // A delete of a different key produces nothing.
    w.watchers
        .ingest(&vec![delete_rec(1, snap(encode_u64_key(7), vec![]))]);
    assert_empty(&rx);

    w.watchers
        .ingest(&vec![delete_rec(1, snap(encode_u64_key(8), vec![]))]);
    assert_eq!(recv_one(&rx).op, Op::Delete);
}
