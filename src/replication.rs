use vstd::prelude::*;

use crate::follower_state::{is_request_for, FollowerState};
use crate::log::raised;
use crate::messages::{AppendEntries, AppendEntriesResponse};
use crate::replica::quorum_of;
use crate::state::{after_observing, same_identity, state_wf, ReplicaRole, State, StateModel};

verus! {

/// What the leader does after a follower's answer to `AppendEntries`.
#[derive(Debug)]
pub enum ReplicationStep {
    /// The answer carried a higher term: this replica is now a follower.
    SteppedDown,
    /// Nothing to do: not the leader, or an answer that names no entry of the log.
    Ignored,
    /// The follower holds the entry: its cursor moved on, and the entry may now be
    /// committed.
    Advanced { committed: bool },
    /// The follower refused: its cursor backed up and this request goes out again.
    Retry(AppendEntries),
}

/// Handles the answer of the peer at position `peer` to an `AppendEntries`, on the
/// leader. A higher term makes it a follower. An acceptance of the entry at `i` counts
/// one more acknowledgement of it, applies the commit rule and moves the peer's cursor
/// past it. A refusal backs the cursor up by one entry and yields the request to send
/// in its place, made with `correlation_id`.
pub fn handle_append_entries_response(
    state: &mut State,
    followers: &mut FollowerState,
    peer: usize,
    response: &AppendEntriesResponse,
    correlation_id: u128,
) -> (r: ReplicationStep)
    requires
        state_wf(old(state)@),
        old(followers).wf(old(state)@.log.entries.len() as int),
        peer < old(followers).spec_peers().len(),
    ensures
        state_wf(final(state)@),
        final(followers).wf(final(state)@.log.entries.len() as int),
        final(followers).spec_peers() == old(followers).spec_peers(),
        final(state)@.log.entries.len() == old(state)@.log.entries.len(),
        response.term > old(state)@.term ==> r is SteppedDown && final(state)@ == after_observing(
            old(state)@,
            response.term,
        ),
        response.term <= old(state)@.term && old(state)@.role != ReplicaRole::Leader ==> r is Ignored
            && final(state)@ == old(state)@,
        r is Advanced ==> {
            let i = response.log_entry_index->0;
            &&& response.success && response.log_entry_index is Some
            &&& 1 <= i <= old(state)@.log.entries.len()
            &&& final(followers).spec_next(peer as int) == i + 1
            &&& final(state)@.term == old(state)@.term
            &&& final(state)@.role == old(state)@.role
            &&& final(state)@.voted_for == old(state)@.voted_for
            &&& final(state)@.heartbeat_received_time == old(state)@.heartbeat_received_time
            &&& same_identity(old(state)@, final(state)@)
            &&& final(state)@.log.entries[i - 1].term == old(state)@.log.entries[i - 1].term
            &&& final(state)@.log.entries[i - 1].index == old(state)@.log.entries[i - 1].index
            &&& final(state)@.log.entries[i - 1].bytes == old(state)@.log.entries[i - 1].bytes
            &&& final(state)@.log.entries[i - 1].acks == if old(state)@.log.entries[i - 1].acks
                < u32::MAX {
                (old(state)@.log.entries[i - 1].acks + 1) as int
            } else {
                u32::MAX as int
            }
            &&& forall|j: int|
                0 <= j < old(state)@.log.entries.len() && j != i - 1
                    ==> #[trigger] final(state)@.log.entries[j] == old(state)@.log.entries[j]
            &&& r->committed == (final(state)@.log.entries[i - 1].acks >= quorum_of(
                old(state)@.cluster_size,
            ) && old(state)@.log.entries[i - 1].term == old(state)@.term)
            &&& final(state)@.log.commit_index == if r->committed {
                raised(old(state)@.log.commit_index, i as int)
            } else {
                old(state)@.log.commit_index
            }
        },
        response.term <= old(state)@.term && old(state)@.role == ReplicaRole::Leader
            && response.success && response.log_entry_index is Some && 1
            <= response.log_entry_index->0 <= old(state)@.log.entries.len() ==> r is Advanced,
        response.term <= old(state)@.term && old(state)@.role == ReplicaRole::Leader
            && !response.success ==> {
            &&& final(state)@ == old(state)@
            &&& final(followers).spec_next(peer as int) == if old(followers).spec_next(peer as int)
                >= 2 {
                (old(followers).spec_next(peer as int) - 1) as u64
            } else {
                old(followers).spec_next(peer as int)
            }
            &&& (r is Retry <==> old(followers).spec_next(peer as int) >= 2)
            &&& r is Retry ==> is_request_for(
                r->0,
                old(state)@.log,
                final(followers).spec_next(peer as int),
                old(state)@.term,
                old(state)@.id,
                correlation_id,
            )
        },
        r is Ignored || r is Retry ==> final(state)@ == old(state)@,
        !(r is Advanced || r is Retry) ==> final(followers).spec_next(peer as int) == old(
            followers,
        ).spec_next(peer as int),
{
    if response.term > state.get_term() {
        state.observe_term(response.term);
        return ReplicationStep::SteppedDown;
    }
    if state.get_role() != ReplicaRole::Leader {
        return ReplicationStep::Ignored;
    }
    let last = state.get_replicated_log().last_log_index();
    if response.success {
        match response.log_entry_index {
            Some(i) => {
                if 1 <= i && i <= last {
                    let committed = state.record_replication(i);
                    followers.advance(peer, i, last);
                    ReplicationStep::Advanced { committed }
                } else {
                    ReplicationStep::Ignored
                }
            },
            None => ReplicationStep::Ignored,
        }
    } else {
        let term = state.get_term();
        let leader_id = state.get_replica().get_id();
        match followers.retry_replicate_log(
            peer,
            state.get_replicated_log(),
            term,
            leader_id,
            correlation_id,
        ) {
            Some(q) => ReplicationStep::Retry(q),
            None => ReplicationStep::Ignored,
        }
    }
}

/// The requests that a leader sends to its peers, one for each, in the peers' order,
/// with the given correlation ids.
pub fn replicate_log(state: &State, followers: &FollowerState, correlation_ids: &Vec<u128>) -> (r: Vec<
    AppendEntries,
>)
    requires
        state_wf(state@),
        followers.wf(state@.log.entries.len() as int),
        correlation_ids@.len() == followers.spec_peers().len(),
    ensures
        r@.len() == followers.spec_peers().len(),
        forall|p: int|
            0 <= p < r@.len() ==> is_request_for(
                #[trigger] r@[p],
                state@.log,
                followers.spec_next(p),
                state@.term,
                state@.id,
                correlation_ids@[p],
            ),
{
    let mut requests: Vec<AppendEntries> = Vec::new();
    let peers = followers.get_peers().len();
    let mut p: usize = 0;
    while p < peers
        invariant
            p <= peers,
            peers == followers.spec_peers().len(),
            correlation_ids@.len() == peers,
            state_wf(state@),
            followers.wf(state@.log.entries.len() as int),
            requests@.len() == p,
            forall|j: int|
                0 <= j < p ==> is_request_for(
                    #[trigger] requests@[j],
                    state@.log,
                    followers.spec_next(j),
                    state@.term,
                    state@.id,
                    correlation_ids@[j],
                ),
        decreases peers - p,
    {
        let q = followers.service_request(
            p,
            state.get_replicated_log(),
            state.get_term(),
            state.get_replica().get_id(),
            correlation_ids[p],
        );
        requests.push(q);
        p = p + 1;
    }
    requests
}

} // verus!
