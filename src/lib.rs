//! The core of a Raft replica and of a quorum key-value store, verified with Verus.
//!
//! Each replica serialises its mutations through a single-writer update queue,
//! correlates asynchronous responses through a table of pending slots, and runs the
//! Raft rules for terms, votes, log replication and commit. The general properties
//! that the modules establish are gathered, proved, in `laws`.

use vstd::prelude::*;

pub mod address;
pub mod codec;
pub mod dash_map;
pub mod errors;
pub mod follower_state;
pub mod laws;
pub mod log;
pub mod messages;
pub mod pending;
pub mod quorum_kv;
pub mod replica;
pub mod replication;
pub mod state;
pub mod update_queue;

verus! {

} // verus!
