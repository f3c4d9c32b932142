use vstd::prelude::*;

use crate::errors::ReplicaError;
use crate::log::{
    at_least_as_up_to_date, entry_content, last_index, last_term, log_after_append, log_wf, prefix_matches,
    raised, slot_of, EntryModel, LogModel, ReplicatedLog,
};
use crate::messages::{AppendEntries, AppendEntriesResponse, Command, RequestVote, RequestVoteResponse};
use crate::replica::{quorum_of, Replica};

verus! {

/// The role a replica plays in its current term.
#[derive(Eq, PartialEq, Structural, Copy, Clone, Debug)]
pub enum ReplicaRole {
    Leader,
    Follower,
    Candidate,
}

/// The consensus variables of one replica, with its identity and its log.
pub struct State {
    pub(crate) term: u64,
    pub(crate) role: ReplicaRole,
    pub(crate) voted_for: Option<u64>,
    pub(crate) heartbeat_received_time: Option<u64>,
    pub(crate) replica: Replica,
    pub(crate) replicated_log: ReplicatedLog,
}

/// What a `State` holds, as mathematical values.
pub struct StateModel {
    pub term: u64,
    pub role: ReplicaRole,
    pub voted_for: Option<u64>,
    pub heartbeat_received_time: Option<u64>,
    pub id: u64,
    pub cluster_size: int,
    pub log: LogModel,
}

impl View for State {
    type V = StateModel;

    open(crate) spec fn view(&self) -> StateModel {
        StateModel {
            term: self.term,
            role: self.role,
            voted_for: self.voted_for,
            heartbeat_received_time: self.heartbeat_received_time,
            id: self.replica.id,
            cluster_size: self.replica.spec_cluster_size(),
            log: self.replicated_log@,
        }
    }
}

/// A well-formed state: its log is dense and its cluster size fits a `u32`.
pub open spec fn state_wf(s: StateModel) -> bool {
    &&& log_wf(s.log)
    &&& 1 <= s.cluster_size <= u32::MAX
}

/// `t` belongs to the same replica and cluster as `s`.
pub open spec fn same_identity(s: StateModel, t: StateModel) -> bool {
    t.id == s.id && t.cluster_size == s.cluster_size
}

/// The state after a message of term `term` has been seen: a higher term makes the
/// replica a follower of that term that has voted for nobody.
pub open spec fn after_observing(s: StateModel, term: u64) -> StateModel {
    if term > s.term {
        StateModel { term, role: ReplicaRole::Follower, voted_for: None, ..s }
    } else {
        s
    }
}

/// The vote-granting rule, on the state after the request's term has been observed:
/// same term, no vote yet for another candidate, and a log at least as up to date.
pub open spec fn grants_vote(s: StateModel, req: RequestVote) -> bool {
    let o = after_observing(s, req.term);
    &&& req.term == o.term
    &&& (o.voted_for is None || o.voted_for == Some(req.replica_id))
    &&& at_least_as_up_to_date(o.log, req.last_log_index, req.last_log_term)
}

/// The number of responses that grant a vote.
pub open spec fn votes_in(rs: Seq<RequestVoteResponse>) -> nat
    decreases rs.len(),
{
    if rs.len() == 0 {
        0
    } else {
        votes_in(rs.drop_last()) + if rs.last().voted {
            1nat
        } else {
            0nat
        }
    }
}

/// The highest term among the responses, 0 if there are none.
pub open spec fn highest_term_in(rs: Seq<RequestVoteResponse>) -> u64
    decreases rs.len(),
{
    if rs.len() == 0 {
        0
    } else {
        let h = highest_term_in(rs.drop_last());
        if rs.last().term > h {
            rs.last().term
        } else {
            h
        }
    }
}

/// How a round of voting ended for the candidate.
#[derive(Eq, PartialEq, Structural, Copy, Clone, Debug)]
pub enum ElectionOutcome {
    /// A quorum granted its vote: the candidate is now the leader.
    Won,
    /// A response carried a higher term: the candidate is now a follower.
    SteppedDown,
    /// Neither: the candidate stays one and a later tick starts a new term.
    Undecided,
}

/// Whether the receiver accepts an `AppendEntries`: its term is not stale and the
/// entry before the new one agrees with the receiver's log.
pub open spec fn accepts_append(s: StateModel, req: AppendEntries) -> bool {
    req.term >= s.term && prefix_matches(s.log, req.previous_log_index, req.previous_log_term)
}

/// The error of a heartbeat round in which some sends failed.
#[derive(Debug)]
pub struct HeartbeatSendError {
    pub total_failed_sends: usize,
}

impl HeartbeatSendError {
    /// The failed count, in words.
    pub fn message(&self) -> (r: String) {
        heartbeat_error_message(self.total_failed_sends)
    }
}

/// Relies on std's `format!`: renders the count of failed heartbeat sends.
#[verifier::external_body]
fn heartbeat_error_message(total_failed_sends: usize) -> String {
    format!("Total failures in sending heartbeat {}", total_failed_sends)
}

/// The result of a heartbeat round: success when every send went through.
pub fn heartbeat_outcome(total_failed_sends: usize) -> (r: Result<(), HeartbeatSendError>)
    ensures
        r is Ok <==> total_failed_sends == 0,
        r is Err ==> r->Err_0.total_failed_sends == total_failed_sends,
{
    if total_failed_sends == 0 {
        Ok(())
    } else {
        Err(HeartbeatSendError { total_failed_sends })
    }
}

impl State {
    /// A fresh follower of term 0 that has voted for nobody and holds an empty log.
    pub fn new(replica: Replica) -> (r: State)
        requires
            replica.wf(),
        ensures
            state_wf(r@),
            r@.term == 0,
            r@.role == ReplicaRole::Follower,
            r@.voted_for is None,
            r@.heartbeat_received_time is None,
            r@.id == replica.spec_id(),
            r@.cluster_size == replica.spec_cluster_size(),
            r@.log.entries.len() == 0,
            r@.log.commit_index is None,
    {
        State {
            term: 0,
            role: ReplicaRole::Follower,
            voted_for: None,
            heartbeat_received_time: None,
            replica,
            replicated_log: ReplicatedLog::new(),
        }
    }

    pub fn get_term(&self) -> (r: u64)
        ensures
            r == self@.term,
    {
        self.term
    }

    pub fn get_role(&self) -> (r: ReplicaRole)
        ensures
            r == self@.role,
    {
        self.role
    }

    pub fn get_voted_for(&self) -> (r: Option<u64>)
        ensures
            r == self@.voted_for,
    {
        self.voted_for
    }

    /// When the last heartbeat arrived, in the clock's milliseconds.
    pub fn get_heartbeat_received_time(&self) -> (r: Option<u64>)
        ensures
            r == self@.heartbeat_received_time,
    {
        self.heartbeat_received_time
    }

    pub fn get_replica(&self) -> (r: &Replica)
        ensures
            r.spec_id() == self@.id,
            r.spec_cluster_size() == self@.cluster_size,
    {
        &self.replica
    }

    pub fn get_replicated_log(&self) -> (r: &ReplicatedLog)
        ensures
            r@ == self@.log,
    {
        &self.replicated_log
    }

    pub fn total_log_entries(&self) -> (r: usize)
        ensures
            r == self@.log.entries.len(),
    {
        self.replicated_log.total_log_entries()
    }

    /// The number of replicas that make a strict majority of the cluster.
    pub fn quorum_size(&self) -> (r: u32)
        requires
            state_wf(self@),
        ensures
            r == quorum_of(self@.cluster_size),
    {
        self.replica.quorum_size()
    }

    /// Whether a replica that is not the leader should start an election at `now`: no
    /// heartbeat has arrived yet, or the last one is more than `election_timeout` old.
    pub fn election_due(&self, now: u64, election_timeout: u64) -> (r: bool)
        ensures
            r == (self@.role != ReplicaRole::Leader && match self@.heartbeat_received_time {
                None => true,
                Some(t) => now > t && now - t > election_timeout,
            }),
    {
        if self.role == ReplicaRole::Leader {
            return false;
        }
        match self.heartbeat_received_time {
            None => true,
            Some(t) => now > t && now - t > election_timeout,
        }
    }

    /// Records that a heartbeat arrived at time `now`.
    pub fn mark_heartbeat_received(&mut self, now: u64)
        ensures
            final(self)@ == (StateModel { heartbeat_received_time: Some(now), ..old(self)@ }),
    {
        self.heartbeat_received_time = Some(now);
    }

    /// Starts a new term as a candidate that votes for itself; returns the new term.
    pub fn change_to_candidate(&mut self) -> (r: u64)
        requires
            old(self)@.term < u64::MAX,
        ensures
            r == old(self)@.term + 1,
            final(self)@ == (StateModel {
                term: r,
                role: ReplicaRole::Candidate,
                voted_for: Some(old(self)@.id),
                ..old(self)@
            }),
    {
        self.term = self.term + 1;
        self.role = ReplicaRole::Candidate;
        self.voted_for = Some(self.replica.get_id());
        self.term
    }

    /// Becomes a follower of `term`, which is not lower than the current one. The vote
    /// is cleared only when the term advances: within one term it stays spent.
    pub fn change_to_follower(&mut self, term: u64)
        requires
            term >= old(self)@.term,
        ensures
            final(self)@ == (StateModel {
                term,
                role: ReplicaRole::Follower,
                voted_for: if term > old(self)@.term {
                    None
                } else {
                    old(self)@.voted_for
                },
                ..old(self)@
            }),
    {
        if term > self.term {
            self.voted_for = None;
        }
        self.role = ReplicaRole::Follower;
        self.term = term;
    }

    /// Becomes the leader of the current term.
    pub fn change_to_leader(&mut self)
        ensures
            final(self)@ == (StateModel { role: ReplicaRole::Leader, ..old(self)@ }),
    {
        self.role = ReplicaRole::Leader;
    }

    /// Applies the rule that any message of a higher term turns the replica into a
    /// follower of that term; returns whether it did.
    pub fn observe_term(&mut self, term: u64) -> (r: bool)
        ensures
            r == (term > old(self)@.term),
            final(self)@ == after_observing(old(self)@, term),
    {
        if term > self.term {
            self.change_to_follower(term);
            true
        } else {
            false
        }
    }

    /// Begins an election round: a new term, a vote for itself, and the request to send
    /// to the peers. A cluster of one is a quorum by itself and leads at once.
    pub fn start_election(&mut self, correlation_id: u128) -> (r: RequestVote)
        requires
            state_wf(old(self)@),
            old(self)@.term < u64::MAX,
        ensures
            state_wf(final(self)@),
            final(self)@.term == old(self)@.term + 1,
            final(self)@.voted_for == Some(old(self)@.id),
            final(self)@.role == if old(self)@.cluster_size == 1 {
                ReplicaRole::Leader
            } else {
                ReplicaRole::Candidate
            },
            final(self)@.log == old(self)@.log,
            final(self)@.heartbeat_received_time == old(self)@.heartbeat_received_time,
            same_identity(old(self)@, final(self)@),
            r == (RequestVote {
                term: final(self)@.term,
                replica_id: old(self)@.id,
                last_log_index: last_index(old(self)@.log) as u64,
                last_log_term: last_term(old(self)@.log),
                correlation_id,
            }),
    {
        let term = self.change_to_candidate();
        if self.replica.cluster_size() == 1 {
            self.change_to_leader();
        }
        RequestVote {
            term,
            replica_id: self.replica.get_id(),
            last_log_index: self.replicated_log.last_log_index(),
            last_log_term: self.replicated_log.last_log_term(),
            correlation_id,
        }
    }

    /// Answers a `RequestVote`: observes its term, then grants the vote by the
    /// vote-granting rule and records it.
    pub fn handle_request_vote(&mut self, req: &RequestVote) -> (r: RequestVoteResponse)
        ensures
            r.voted == grants_vote(old(self)@, *req),
            r.term == after_observing(old(self)@, req.term).term,
            r.correlation_id == req.correlation_id,
            final(self)@ == if r.voted {
                StateModel {
                    voted_for: Some(req.replica_id),
                    ..after_observing(old(self)@, req.term)
                }
            } else {
                after_observing(old(self)@, req.term)
            },
    {
        self.observe_term(req.term);
        let free = match self.voted_for {
            None => true,
            Some(c) => c == req.replica_id,
        };
        let my_last_term = self.replicated_log.last_log_term();
        let my_last_index = self.replicated_log.total_log_entries() as u64;
        let up_to_date = req.last_log_term > my_last_term || (req.last_log_term == my_last_term
            && req.last_log_index >= my_last_index);
        let voted = req.term == self.term && free && up_to_date;
        if voted {
            self.voted_for = Some(req.replica_id);
        }
        RequestVoteResponse { term: self.term, voted, correlation_id: req.correlation_id }
    }

    /// Tallies the responses to the round started for `election_term`, counting this
    /// replica's own vote. A higher term in any response makes it a follower of the
    /// highest such term; otherwise a quorum of votes, while still the candidate of that
    /// term, makes it the leader; otherwise nothing changes.
    pub fn complete_election(&mut self, election_term: u64, responses: &Vec<RequestVoteResponse>) -> (r:
        ElectionOutcome)
        requires
            state_wf(old(self)@),
        ensures
            state_wf(final(self)@),
            highest_term_in(responses@) > old(self)@.term ==> r == ElectionOutcome::SteppedDown
                && final(self)@ == (StateModel {
                term: highest_term_in(responses@),
                role: ReplicaRole::Follower,
                voted_for: None,
                ..old(self)@
            }),
            highest_term_in(responses@) <= old(self)@.term && old(self)@.role
                == ReplicaRole::Candidate && old(self)@.term == election_term && votes_in(
                responses@,
            ) + 1 >= quorum_of(old(self)@.cluster_size) ==> r == ElectionOutcome::Won
                && final(self)@ == (StateModel { role: ReplicaRole::Leader, ..old(self)@ }),
            r == ElectionOutcome::Undecided <==> !(highest_term_in(responses@) > old(self)@.term)
                && !(old(self)@.role == ReplicaRole::Candidate && old(self)@.term == election_term
                && votes_in(responses@) + 1 >= quorum_of(old(self)@.cluster_size)),
            r == ElectionOutcome::Undecided ==> final(self)@ == old(self)@,
    {
        let mut highest: u64 = 0;
        let mut votes: u64 = 0;
        let mut i: usize = 0;
        while i < responses.len()
            invariant
                i <= responses@.len(),
                highest == highest_term_in(responses@.subrange(0, i as int)),
                votes == votes_in(responses@.subrange(0, i as int)),
                votes <= i,
            decreases responses@.len() - i,
        {
            let ghost prefix = responses@.subrange(0, i as int);
            assert(responses@.subrange(0, i + 1).drop_last() =~= prefix);
            let resp = responses[i];
            if resp.term > highest {
                highest = resp.term;
            }
            if resp.voted {
                votes = votes + 1;
            }
            i = i + 1;
        }
        assert(responses@.subrange(0, i as int) =~= responses@);
        if highest > self.term {
            self.change_to_follower(highest);
            ElectionOutcome::SteppedDown
        } else if self.role == ReplicaRole::Candidate && self.term == election_term && votes
            >= (self.replica.quorum_size() - 1) as u64 {
            self.change_to_leader();
            ElectionOutcome::Won
        } else {
            ElectionOutcome::Undecided
        }
    }

    /// Handles an `AppendEntries` on the receiver. A request of a lower term is refused
    /// and changes nothing. Otherwise the replica adopts the term, becomes a follower,
    /// records the heartbeat at `now`, and applies the request if its previous entry
    /// matches the local log.
    pub fn handle_append_entries(&mut self, req: AppendEntries, now: u64) -> (r:
        AppendEntriesResponse)
        requires
            state_wf(old(self)@),
            old(self)@.log.entries.len() + 1 < u64::MAX,
        ensures
            state_wf(final(self)@),
            same_identity(old(self)@, final(self)@),
            r.correlation_id == req.correlation_id,
            r.success == accepts_append(old(self)@, req),
            r.term == if req.term > old(self)@.term {
                req.term
            } else {
                old(self)@.term
            },
            req.term < old(self)@.term ==> final(self)@ == old(self)@ && r.log_entry_index is None,
            req.term >= old(self)@.term ==> {
                &&& final(self)@.term == req.term
                &&& final(self)@.role == ReplicaRole::Follower
                &&& final(self)@.voted_for == after_observing(old(self)@, req.term).voted_for
                &&& final(self)@.heartbeat_received_time == Some(now)
            },
            r.success ==> final(self)@.log == log_after_append(
                old(self)@.log,
                req.previous_log_index,
                entry_content(req.entry),
                req.leader_commit,
            ),
            !r.success ==> final(self)@.log == old(self)@.log,
            r.log_entry_index == if r.success && req.entry is Some {
                Some((slot_of(req.previous_log_index) + 1) as u64)
            } else {
                None
            },
    {
        if req.term < self.term {
            return AppendEntriesResponse {
                term: self.term,
                success: false,
                correlation_id: req.correlation_id,
                log_entry_index: None,
            };
        }
        self.observe_term(req.term);
        self.role = ReplicaRole::Follower;
        self.heartbeat_received_time = Some(now);
        if !self.replicated_log.matches_previous(req.previous_log_index, req.previous_log_term) {
            return AppendEntriesResponse {
                term: self.term,
                success: false,
                correlation_id: req.correlation_id,
                log_entry_index: None,
            };
        }
        let slot: u64 = match req.previous_log_index {
            None => 0,
            Some(p) => p,
        };
        let log_entry_index = if req.entry.is_some() {
            Some(slot + 1)
        } else {
            None
        };
        self.replicated_log.append_entries(req.previous_log_index, req.entry, req.leader_commit);
        AppendEntriesResponse {
            term: self.term,
            success: true,
            correlation_id: req.correlation_id,
            log_entry_index,
        }
    }

    /// A client command. A leader appends it as a new entry of its term, counted as
    /// held by itself (committed at once when that is a quorum) and returns its index;
    /// any other replica refuses it.
    pub fn execute(&mut self, command: Command) -> (r: Result<u64, ReplicaError>)
        requires
            state_wf(old(self)@),
            old(self)@.log.entries.len() + 1 < u64::MAX,
        ensures
            state_wf(final(self)@),
            old(self)@.role != ReplicaRole::Leader ==> r == Err::<u64, ReplicaError>(
                ReplicaError::NotLeader,
            ) && final(self)@ == old(self)@,
            old(self)@.role == ReplicaRole::Leader ==> {
                &&& r == Ok::<u64, ReplicaError>((old(self)@.log.entries.len() + 1) as u64)
                &&& final(self)@ == (StateModel {
                    log: LogModel {
                        entries: old(self)@.log.entries.push(
                            EntryModel {
                                index: r->Ok_0,
                                term: old(self)@.term,
                                bytes: command.command@,
                                acks: 1,
                            },
                        ),
                        commit_index: if quorum_of(old(self)@.cluster_size) <= 1 {
                            raised(old(self)@.log.commit_index, r->Ok_0 as int)
                        } else {
                            old(self)@.log.commit_index
                        },
                    },
                    ..old(self)@
                })
            },
    {
        if self.role != ReplicaRole::Leader {
            return Err(ReplicaError::NotLeader);
        }
        let index = self.replicated_log.append_command(command.command, self.term);
        let quorum = self.replica.quorum_size();
        self.replicated_log.commit_if_replicated(index, quorum, self.term);
        Ok(index)
    }

    /// Counts a follower's acknowledgement of the entry at `index` and applies the
    /// leader's commit rule to it; returns whether the entry is now committed.
    pub fn record_replication(&mut self, index: u64) -> (r: bool)
        requires
            state_wf(old(self)@),
            1 <= index <= old(self)@.log.entries.len(),
        ensures
            state_wf(final(self)@),
            same_identity(old(self)@, final(self)@),
            final(self)@.term == old(self)@.term,
            final(self)@.role == old(self)@.role,
            final(self)@.voted_for == old(self)@.voted_for,
            final(self)@.heartbeat_received_time == old(self)@.heartbeat_received_time,
            final(self)@.log.entries.len() == old(self)@.log.entries.len(),
            final(self)@.log.entries[index - 1].term == old(self)@.log.entries[index - 1].term,
            final(self)@.log.entries[index - 1].index == old(self)@.log.entries[index - 1].index,
            final(self)@.log.entries[index - 1].bytes == old(self)@.log.entries[index - 1].bytes,
            final(self)@.log.entries[index - 1].acks == if old(self)@.log.entries[index
                - 1].acks < u32::MAX {
                (old(self)@.log.entries[index - 1].acks + 1) as int
            } else {
                u32::MAX as int
            },
            r == (final(self)@.log.entries[index - 1].acks >= quorum_of(old(self)@.cluster_size)
                && old(self)@.log.entries[index - 1].term == old(self)@.term),
            final(self)@.log.commit_index == if r {
                raised(old(self)@.log.commit_index, index as int)
            } else {
                old(self)@.log.commit_index
            },
            forall|j: int|
                0 <= j < old(self)@.log.entries.len() && j != index - 1
                    ==> #[trigger] final(self)@.log.entries[j] == old(self)@.log.entries[j],
    {
        self.replicated_log.acknowledge(index);
        let quorum = self.replica.quorum_size();
        self.replicated_log.commit_if_replicated(index, quorum, self.term)
    }
}

} // verus!
