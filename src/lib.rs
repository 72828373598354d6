//! An in-process actor runtime: bounded per-actor mailboxes, a name registry,
//! the decisions of each actor's task loop, supervision policies and an actor
//! whose state can be snapshotted through a storage backend.

pub mod actor_system;
pub mod backends;
pub mod data_actor;
pub mod logging;
pub mod mailbox;
pub mod snapshot_actor;
pub mod supervision;
