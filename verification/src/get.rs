//! The client-facing facade: watch one exact value of a table's primary
//! key or of one of its secondary keys.
//!
//! Table identity is an explicit token resolved by the schema layer, and
//! keys arrive as canonical key bytes, normalized by the key-encoding
//! layer (for 64-bit integer keys, `key::encode_u64_key` is that
//! encoding). With canonical inputs registration never fails, so both
//! registration calls always return `Ok`.

use vstd::prelude::*;

use crate::channel::MpscReceiver;
use crate::model::{EntryModel, Event, KeySelector, WatchError};
use crate::registry::Watchers;

verus! {

/// Watch only one value.
pub struct WatchGet {
    pub watchers: Watchers,
}

impl WatchGet {
    /// A watch facade over an empty registry.
    pub fn new() -> (r: WatchGet)
        ensures
            r.watchers.wf(),
            r.watchers@ == Seq::<EntryModel>::empty(),
            r.watchers.next_id == 0,
    {
        WatchGet { watchers: Watchers::new() }
    }

    /// Watch the primary key of `table` for the value whose canonical key
    /// bytes are `key`.
    ///
    /// Returns a channel receiver and the watcher id. The watcher id can be
    /// used to unwatch the channel.
    pub fn primary(&mut self, table: u64, key: Vec<u8>) -> (r: Result<
        (MpscReceiver<Event>, u64),
        WatchError,
    >)
        requires
            old(self).watchers.wf(),
            old(self).watchers.next_id < u64::MAX,
        ensures
            final(self).watchers.wf(),
            r is Ok,
            r matches Ok(p) ==> p.1 == old(self).watchers.next_id,
            final(self).watchers.next_id == old(self).watchers.next_id + 1,
            final(self).watchers@ == old(self).watchers@.push(
                EntryModel {
                    id: old(self).watchers.next_id,
                    table,
                    selector: KeySelector::Primary,
                    key: key@,
                },
            ),
    {
        let (receiver, id) = self.watchers.register(table, KeySelector::Primary, key);
        Ok((receiver, id))
    }

    /// Watch the secondary key of `table` whose index identifier is
    /// `key_def`, for the value whose canonical key bytes are `key`.
    ///
    /// Returns a channel receiver and the watcher id. The watcher id can be
    /// used to unwatch the channel.
    pub fn secondary(&mut self, table: u64, key_def: u64, key: Vec<u8>) -> (r: Result<
        (MpscReceiver<Event>, u64),
        WatchError,
    >)
        requires
            old(self).watchers.wf(),
            old(self).watchers.next_id < u64::MAX,
        ensures
            final(self).watchers.wf(),
            r is Ok,
            r matches Ok(p) ==> p.1 == old(self).watchers.next_id,
            final(self).watchers.next_id == old(self).watchers.next_id + 1,
            final(self).watchers@ == old(self).watchers@.push(
                EntryModel {
                    id: old(self).watchers.next_id,
                    table,
                    selector: KeySelector::Secondary(key_def),
                    key: key@,
                },
            ),
    {
        let (receiver, id) = self.watchers.register(table, KeySelector::Secondary(key_def), key);
        Ok((receiver, id))
    }

    /// Stop watching: removes the registration made under `id`. Surfaces
    /// the registry's result unchanged: `WatchError::NotFound` exactly when
    /// no watch is registered under `id`.
    pub fn unwatch(&mut self, id: u64) -> (r: Result<(), WatchError>)
        requires
            old(self).watchers.wf(),
        ensures
            final(self).watchers.wf(),
            final(self).watchers.next_id == old(self).watchers.next_id,
            r is Ok <==> old(self).watchers.has_id(id),
            !final(self).watchers.has_id(id),
            match r {
                Ok(()) => exists|i: int|
                    0 <= i < old(self).watchers@.len() && (#[trigger] old(self).watchers@[i].id)
                        == id && final(self).watchers@ == old(self).watchers@.remove(i),
                Err(e) => e == WatchError::NotFound && final(self).watchers@ == old(
                    self,
                ).watchers@,
            },
    {
        self.watchers.unwatch(id)
    }
}

} // verus!
