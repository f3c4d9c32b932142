use vstd::prelude::*;

use crate::follower_state::previous_of;
use crate::log::{last_term, log_wf, ReplicatedLog};

verus! {

/// A client command: the bytes to be replicated.
#[derive(Clone, Debug, PartialEq, Eq)]
pub struct Command {
    pub command: Vec<u8>,
}

/// A log entry as it travels inside an `AppendEntries` request.
#[derive(Clone, Debug, PartialEq, Eq)]
pub struct Entry {
    pub command: Vec<u8>,
    pub term: u64,
    pub index: u64,
}

/// A candidate's request for a vote.
#[derive(Clone, Copy, Debug, PartialEq, Eq)]
pub struct RequestVote {
    pub term: u64,
    pub replica_id: u64,
    pub last_log_index: u64,
    pub last_log_term: u64,
    pub correlation_id: u128,
}

/// A voter's answer to `RequestVote`.
#[derive(Clone, Copy, Debug, PartialEq, Eq)]
pub struct RequestVoteResponse {
    pub term: u64,
    pub voted: bool,
    pub correlation_id: u128,
}

/// A leader's replication request; without an entry it is a heartbeat.
#[derive(Clone, Debug, PartialEq, Eq)]
pub struct AppendEntries {
    pub term: u64,
    pub leader_id: u64,
    pub previous_log_index: Option<u64>,
    pub previous_log_term: Option<u64>,
    pub entry: Option<Entry>,
    pub leader_commit: Option<u64>,
    pub correlation_id: u128,
}

/// A follower's answer to `AppendEntries`.
#[derive(Clone, Copy, Debug, PartialEq, Eq)]
pub struct AppendEntriesResponse {
    pub term: u64,
    pub success: bool,
    pub correlation_id: u128,
    pub log_entry_index: Option<u64>,
}

/// Builds the payloads that a replica sends; the caller supplies each correlation id.
pub struct BuiltInServiceRequestFactory {}

impl BuiltInServiceRequestFactory {
    pub fn new() -> (r: BuiltInServiceRequestFactory) {
        BuiltInServiceRequestFactory {  }
    }

    /// A candidate's request for a vote in `term`, with the end of its log.
    pub fn request_vote(
        &self,
        replica_id: u64,
        term: u64,
        last_log_index: u64,
        last_log_term: u64,
        correlation_id: u128,
    ) -> (r: RequestVote)
        ensures
            r == (RequestVote { term, replica_id, last_log_index, last_log_term, correlation_id }),
    {
        RequestVote { term, replica_id, last_log_index, last_log_term, correlation_id }
    }

    /// The answer to a request for a vote, under the request's correlation id.
    pub fn request_vote_response(&self, term: u64, voted: bool, correlation_id: u128) -> (r:
        RequestVoteResponse)
        ensures
            r == (RequestVoteResponse { term, voted, correlation_id }),
    {
        RequestVoteResponse { term, voted, correlation_id }
    }

    /// The heartbeat of a leader of `term`: an `AppendEntries` with no entry whose
    /// previous index and term are those of the leader's last entry (none for an empty
    /// log), and which carries the leader's commit index. A follower thus still runs the
    /// consistency check on it and moves its commit index.
    pub fn heartbeat(&self, term: u64, leader_id: u64, log: &ReplicatedLog, correlation_id: u128) -> (r:
        AppendEntries)
        requires
            log_wf(log@),
        ensures
            r.term == term,
            r.leader_id == leader_id,
            (r.previous_log_index, r.previous_log_term) == previous_of(
                log@,
                (log@.entries.len() + 1) as u64,
            ),
            r.previous_log_index == if log@.entries.len() == 0 {
                None
            } else {
                Some(log@.entries.len() as u64)
            },
            r.previous_log_term == if log@.entries.len() == 0 {
                None
            } else {
                Some(last_term(log@))
            },
            r.entry is None,
            r.leader_commit == log@.commit_index,
            r.correlation_id == correlation_id,
    {
        let last = log.last_log_index();
        let (previous_log_index, previous_log_term) = if last >= 1 {
            (Some(last), log.get_log_term_at(last))
        } else {
            (None, None)
        };
        AppendEntries {
            term,
            leader_id,
            previous_log_index,
            previous_log_term,
            entry: None,
            leader_commit: log.get_commit_index(),
            correlation_id,
        }
    }
}

} // verus!
