//! Change-notification ("watch") engine for an embedded, transactional,
//! typed key-value store.
//!
//! A client registers interest in one exact value of a table's primary key
//! or of one of its secondary keys, and receives a stream of events whenever
//! a committed write inserts, updates, or deletes a matching record. The
//! engine tracks active subscriptions in a registry, matches each committed
//! transaction's change records against them, and delivers events over
//! per-watcher channels without ever blocking the committing writer.

pub mod channel;
pub mod dispatcher;
pub mod get;
pub mod key;
pub mod laws;
pub mod matcher;
pub mod model;
pub mod registry;
