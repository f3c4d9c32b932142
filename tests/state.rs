use raft_core::address::{HostAndPort, IpAddress};
use raft_core::errors::ReplicaError;
use raft_core::messages::{Command, RequestVote};
use raft_core::replica::Replica;
use raft_core::state::{heartbeat_outcome, ElectionOutcome, ReplicaRole, State};

fn localhost(port: u16) -> HostAndPort {
    HostAndPort::new(IpAddress::V4(0x7f00_0001), port)
}

fn some_state() -> State {
    let some_replica = Replica::new(10, localhost(1971), vec![localhost(1297)]);
    State::new(some_replica)
}

fn replica_state(id: u64, port: u16, peer_ports: &[u16]) -> State {
    let peers = peer_ports.iter().map(|p| localhost(*p)).collect();
    State::new(Replica::new(id, localhost(port), peers))
}

#[test]
fn become_candidate() {
    let mut state = some_state();
    state.change_to_candidate();

    assert_eq!(1, state.get_term());
    assert_eq!(ReplicaRole::Candidate, state.get_role());
    assert_eq!(Some(10), state.get_voted_for());
}

#[test]
fn become_leader() {
    let mut state = some_state();
    state.change_to_candidate();
    state.change_to_leader();

    assert_eq!(1, state.get_term());
    assert_eq!(ReplicaRole::Leader, state.get_role());
    assert_eq!(Some(10), state.get_voted_for());
}

#[test]
fn become_follower() {
    let mut state = some_state();
    state.change_to_candidate();
    state.change_to_follower(2);

    assert_eq!(2, state.get_term());
    assert_eq!(ReplicaRole::Follower, state.get_role());
    assert_eq!(None, state.get_voted_for());
}

#[test]
fn new_state_is_a_follower_of_term_zero() {
    let state = some_state();
    assert_eq!(0, state.get_term());
    assert_eq!(ReplicaRole::Follower, state.get_role());
    assert_eq!(None, state.get_voted_for());
    assert_eq!(None, state.get_heartbeat_received_time());
    assert_eq!(0, state.total_log_entries());
    assert_eq!(2, state.quorum_size());
}

#[test]
fn start_elections_with_new_term() {
    let mut state = replica_state(10, 3560, &[3561, 3562]);
    let mut peer_one = replica_state(20, 3561, &[3560, 3562]);
    let mut peer_other = replica_state(30, 3562, &[3560, 3561]);

    let request = state.start_election(1);
    let votes = vec![peer_one.handle_request_vote(&request), peer_other.handle_request_vote(&request)];
    state.complete_election(request.term, &votes);
    assert_eq!(1, state.get_term());

    let request = state.start_election(2);
    let votes = vec![peer_one.handle_request_vote(&request), peer_other.handle_request_vote(&request)];
    let outcome = state.complete_election(request.term, &votes);
    assert_eq!(ElectionOutcome::Won, outcome);
    assert_eq!(2, state.get_term());
    assert_eq!(ReplicaRole::Leader, state.get_role());
}

#[test]
fn single_node_elects_itself() {
    let mut state = replica_state(7, 4000, &[]);
    assert_eq!(1, state.quorum_size());
    let request = state.start_election(5);
    assert_eq!(1, request.term);
    assert_eq!(7, request.replica_id);
    assert_eq!(ReplicaRole::Leader, state.get_role());
    assert_eq!(Some(7), state.get_voted_for());
}

#[test]
fn split_vote_stays_candidate() {
    let mut state = replica_state(10, 3560, &[3561, 3562, 3563, 3564]);
    let request = state.start_election(1);
    let mut refusing = replica_state(20, 3561, &[3560]);
    refusing.change_to_candidate();
    let votes = vec![refusing.handle_request_vote(&request)];
    assert!(!votes[0].voted);
    let outcome = state.complete_election(request.term, &votes);
    assert_eq!(ElectionOutcome::Undecided, outcome);
    assert_eq!(ReplicaRole::Candidate, state.get_role());
    assert_eq!(1, state.get_term());
}

#[test]
fn higher_term_in_vote_response_steps_down() {
    let mut state = replica_state(10, 3560, &[3561, 3562]);
    let request = state.start_election(1);
    let mut ahead = replica_state(20, 3561, &[3560, 3562]);
    ahead.change_to_follower(5);
    let mut stale_request = request;
    stale_request.term = 1;
    let votes = vec![ahead.handle_request_vote(&stale_request)];
    assert_eq!(5, votes[0].term);
    assert!(!votes[0].voted);
    let outcome = state.complete_election(request.term, &votes);
    assert_eq!(ElectionOutcome::SteppedDown, outcome);
    assert_eq!(5, state.get_term());
    assert_eq!(ReplicaRole::Follower, state.get_role());
    assert_eq!(None, state.get_voted_for());
}

#[test]
fn vote_granted_once_per_term() {
    let mut voter = replica_state(30, 3562, &[3560, 3561]);
    let first = RequestVote { term: 1, replica_id: 10, last_log_index: 0, last_log_term: 0, correlation_id: 1 };
    let second = RequestVote { term: 1, replica_id: 20, last_log_index: 0, last_log_term: 0, correlation_id: 2 };
    let granted = voter.handle_request_vote(&first);
    assert!(granted.voted);
    assert_eq!(1, granted.term);
    assert_eq!(1, granted.correlation_id);
    assert_eq!(Some(10), voter.get_voted_for());
    let refused = voter.handle_request_vote(&second);
    assert!(!refused.voted);
    assert_eq!(2, refused.correlation_id);
    let again = voter.handle_request_vote(&first);
    assert!(again.voted);
}

#[test]
fn vote_refused_to_a_stale_log_or_term() {
    let mut voter = replica_state(30, 3562, &[3560, 3561]);
    voter.change_to_candidate();
    voter.change_to_leader();
    voter.execute(Command { command: b"x".to_vec() }).unwrap();
    voter.change_to_follower(2);
    let stale_log = RequestVote { term: 3, replica_id: 10, last_log_index: 0, last_log_term: 0, correlation_id: 1 };
    let response = voter.handle_request_vote(&stale_log);
    assert!(!response.voted);
    assert_eq!(3, response.term);
    assert_eq!(3, voter.get_term());
    let stale_term = RequestVote { term: 1, replica_id: 10, last_log_index: 9, last_log_term: 9, correlation_id: 2 };
    let response = voter.handle_request_vote(&stale_term);
    assert!(!response.voted);
    assert_eq!(3, response.term);
    let up_to_date = RequestVote { term: 3, replica_id: 10, last_log_index: 1, last_log_term: 1, correlation_id: 3 };
    assert!(voter.handle_request_vote(&up_to_date).voted);
}

#[test]
fn observing_a_higher_term_makes_a_follower() {
    let mut state = some_state();
    state.change_to_candidate();
    state.change_to_leader();
    assert!(!state.observe_term(1));
    assert_eq!(ReplicaRole::Leader, state.get_role());
    assert!(state.observe_term(4));
    assert_eq!(4, state.get_term());
    assert_eq!(ReplicaRole::Follower, state.get_role());
    assert_eq!(None, state.get_voted_for());
}

#[test]
fn term_never_decreases_across_messages() {
    let mut state = some_state();
    state.observe_term(6);
    let older = RequestVote { term: 2, replica_id: 99, last_log_index: 0, last_log_term: 0, correlation_id: 1 };
    state.handle_request_vote(&older);
    assert_eq!(6, state.get_term());
    state.observe_term(3);
    assert_eq!(6, state.get_term());
}

#[test]
fn mark_heartbeat_records_time() {
    let mut state = some_state();
    state.mark_heartbeat_received(1234);
    assert_eq!(Some(1234), state.get_heartbeat_received_time());
}

#[test]
fn client_write_on_follower_is_not_leader() {
    let mut state = some_state();
    let result = state.execute(Command { command: b"replicate".to_vec() });
    assert_eq!(Err(ReplicaError::NotLeader), result);
    assert_eq!(0, state.total_log_entries());
}

#[test]
fn client_write_during_election_is_not_leader() {
    let mut state = some_state();
    state.start_election(1);
    assert_eq!(ReplicaRole::Candidate, state.get_role());
    let result = state.execute(Command { command: b"replicate".to_vec() });
    assert_eq!(Err(ReplicaError::NotLeader), result);
}

#[test]
fn client_write_on_leader_appends_an_entry() {
    let mut state = some_state();
    state.change_to_candidate();
    state.change_to_leader();
    assert_eq!(Ok(1), state.execute(Command { command: b"replicate".to_vec() }));
    assert_eq!(Ok(2), state.execute(Command { command: b"raft".to_vec() }));
    let log = state.get_replicated_log();
    let entry = log.get_log_entry_at(2).unwrap();
    assert_eq!(2, entry.get_index());
    assert_eq!(1, entry.get_term());
    assert_eq!(1, entry.get_acks());
    assert_eq!(b"raft".to_vec(), entry.get_bytes_as_vec());
    assert_eq!(None, log.get_commit_index());
}

#[test]
fn single_node_commits_at_once() {
    let mut state = replica_state(7, 4000, &[]);
    state.start_election(1);
    assert_eq!(Ok(1), state.execute(Command { command: b"alone".to_vec() }));
    assert_eq!(Some(1), state.get_replicated_log().get_commit_index());
}

#[test]
fn heartbeat_outcome_counts_failures() {
    assert!(heartbeat_outcome(0).is_ok());
    let error = heartbeat_outcome(2).unwrap_err();
    assert_eq!(2, error.total_failed_sends);
    assert_eq!("Total failures in sending heartbeat 2", error.message());
}

#[test]
fn error_messages_name_the_error() {
    assert_eq!("not the leader", ReplicaError::NotLeader.message());
    assert_eq!("timed out waiting for a quorum", ReplicaError::Timeout.message());
}

#[test]
fn election_due_after_heartbeat_timeout() {
    let mut state = some_state();
    assert!(state.election_due(0, 150));
    state.mark_heartbeat_received(1000);
    assert!(!state.election_due(1100, 150));
    assert!(state.election_due(1151, 150));
    state.change_to_candidate();
    state.change_to_leader();
    assert!(!state.election_due(5000, 150));
}

#[test]
fn candidate_falling_back_in_its_term_keeps_its_vote() {
    let mut state = some_state();
    state.change_to_candidate();
    state.change_to_follower(1);
    assert_eq!(1, state.get_term());
    assert_eq!(ReplicaRole::Follower, state.get_role());
    assert_eq!(Some(10), state.get_voted_for());
    let other = RequestVote { term: 1, replica_id: 20, last_log_index: 0, last_log_term: 0, correlation_id: 1 };
    assert!(!state.handle_request_vote(&other).voted);
}
