use raft_core::address::{HostAndPort, IpAddress};
use raft_core::follower_state::FollowerState;
use raft_core::messages::{AppendEntries, AppendEntriesResponse, BuiltInServiceRequestFactory, Command, Entry};
use raft_core::replica::Replica;
use raft_core::replication::{handle_append_entries_response, replicate_log, ReplicationStep};
use raft_core::state::{ElectionOutcome, ReplicaRole, State};

fn localhost(port: u16) -> HostAndPort {
    HostAndPort::new(IpAddress::V4(0x7f00_0001), port)
}

fn replica_state(id: u64, port: u16, peer_ports: &[u16]) -> State {
    let peers = peer_ports.iter().map(|p| localhost(*p)).collect();
    State::new(Replica::new(id, localhost(port), peers))
}

/// A leader at 7191 with followers at 7192 and 7193, after an election.
fn elected_cluster() -> (State, FollowerState, Vec<State>) {
    let mut leader = replica_state(10, 7191, &[7192, 7193]);
    let mut followers = vec![replica_state(20, 7192, &[7191, 7193]), replica_state(30, 7193, &[7191, 7192])];
    let request = leader.start_election(1);
    let votes = followers.iter_mut().map(|f| f.handle_request_vote(&request)).collect();
    assert_eq!(ElectionOutcome::Won, leader.complete_election(request.term, &votes));
    let last = leader.get_replicated_log().last_log_index();
    let cursors = FollowerState::new(leader.get_replica().get_peers().clone(), last);
    (leader, cursors, followers)
}

/// Sends one round of `AppendEntries` to every follower and hands back their answers.
fn replication_round(leader: &mut State, cursors: &mut FollowerState, followers: &mut Vec<State>, now: u64) -> Vec<ReplicationStep> {
    let ids: Vec<u128> = (0..followers.len() as u128).collect();
    let requests = replicate_log(leader, cursors, &ids);
    let mut steps = Vec::new();
    for (p, request) in requests.into_iter().enumerate() {
        let response = followers[p].handle_append_entries(request, now);
        steps.push(handle_append_entries_response(leader, cursors, p, &response, 100 + p as u128));
    }
    steps
}

fn entry_bytes(state: &State, index: u64) -> Vec<u8> {
    state.get_replicated_log().get_log_entry_at(index).unwrap().get_bytes_as_vec()
}

#[test]
fn single_command_replication() {
    let (mut leader, mut cursors, mut followers) = elected_cluster();
    assert_eq!(ReplicaRole::Leader, leader.get_role());
    assert_eq!(Ok(1), leader.execute(Command { command: b"replicate".to_vec() }));
    replication_round(&mut leader, &mut cursors, &mut followers, 40);

    assert_eq!(1, leader.total_log_entries());
    assert_eq!(1, followers[0].total_log_entries());
    assert_eq!(1, followers[1].total_log_entries());
    let first = leader.get_replicated_log().get_log_entry_at(1).unwrap();
    assert_eq!(3, first.get_acks());
    assert_eq!(b"replicate".to_vec(), first.get_bytes_as_vec());
    assert_eq!(Some(1), leader.get_replicated_log().get_commit_index());
    assert_eq!(2, cursors.next_log_index(0));
    assert_eq!(Some(40), followers[0].get_heartbeat_received_time());
}

#[test]
fn sequential_commands_commit_with_follower_lag() {
    let (mut leader, mut cursors, mut followers) = elected_cluster();
    for command in [b"replicate".to_vec(), b"raft".to_vec(), b"log".to_vec()] {
        leader.execute(Command { command }).unwrap();
        replication_round(&mut leader, &mut cursors, &mut followers, 1);
    }
    for state in std::iter::once(&leader).chain(followers.iter()) {
        assert_eq!(3, state.total_log_entries());
        assert_eq!(b"replicate".to_vec(), entry_bytes(state, 1));
        assert_eq!(b"raft".to_vec(), entry_bytes(state, 2));
        assert_eq!(b"log".to_vec(), entry_bytes(state, 3));
    }
    assert_eq!(Some(3), leader.get_replicated_log().get_commit_index());
    assert_eq!(Some(2), followers[0].get_replicated_log().get_commit_index());
    assert_eq!(Some(2), followers[1].get_replicated_log().get_commit_index());
}

#[test]
fn consistency_rejection_backs_up_and_repairs() {
    let mut leader = replica_state(10, 7191, &[7192]);
    let mut follower = replica_state(20, 7192, &[7191]);
    leader.change_to_candidate();
    leader.change_to_leader();
    leader.execute(Command { command: b"one".to_vec() }).unwrap();
    leader.execute(Command { command: b"two".to_vec() }).unwrap();
    leader.execute(Command { command: b"three".to_vec() }).unwrap();

    let first = AppendEntries {
        term: 1,
        leader_id: 10,
        previous_log_index: None,
        previous_log_term: None,
        entry: Some(Entry { command: b"one".to_vec(), term: 1, index: 1 }),
        leader_commit: None,
        correlation_id: 1,
    };
    assert!(follower.handle_append_entries(first, 0).success);
    let conflicting = AppendEntries {
        term: 2,
        leader_id: 99,
        previous_log_index: Some(1),
        previous_log_term: Some(1),
        entry: Some(Entry { command: b"other".to_vec(), term: 2, index: 2 }),
        leader_commit: None,
        correlation_id: 2,
    };
    assert!(follower.handle_append_entries(conflicting, 0).success);
    assert_eq!(Some(2), follower.get_replicated_log().get_log_term_at(2));

    leader.change_to_follower(2);
    leader.change_to_candidate();
    leader.change_to_leader();
    let mut cursors = FollowerState::new(vec![localhost(7192)], 2);
    let requests = replicate_log(&leader, &cursors, &vec![3]);
    assert_eq!(Some(2), requests[0].previous_log_index);
    assert_eq!(Some(1), requests[0].previous_log_term);
    assert_eq!(3, requests[0].entry.as_ref().unwrap().index);
    let response = follower.handle_append_entries(requests[0].clone(), 0);
    assert!(!response.success);

    let step = handle_append_entries_response(&mut leader, &mut cursors, 0, &response, 4);
    assert_eq!(2, cursors.next_log_index(0));
    let retry = match step {
        ReplicationStep::Retry(request) => request,
        other => panic!("expected a retry, got {:?}", other),
    };
    assert_eq!(Some(1), retry.previous_log_index);
    assert_eq!(2, retry.entry.as_ref().unwrap().index);
    let response = follower.handle_append_entries(retry, 0);
    assert!(response.success);
    assert_eq!(Some(2), response.log_entry_index);
    assert_eq!(Some(1), follower.get_replicated_log().get_log_term_at(2));
    assert_eq!(b"two".to_vec(), entry_bytes(&follower, 2));
    assert_eq!(2, follower.total_log_entries());
}

#[test]
fn duplicate_append_entries_leaves_log_unchanged() {
    let mut follower = replica_state(20, 7192, &[7191]);
    let request = AppendEntries {
        term: 1,
        leader_id: 10,
        previous_log_index: None,
        previous_log_term: None,
        entry: Some(Entry { command: b"once".to_vec(), term: 1, index: 1 }),
        leader_commit: Some(1),
        correlation_id: 7,
    };
    assert!(follower.handle_append_entries(request.clone(), 0).success);
    let second = follower.handle_append_entries(request, 0);
    assert!(second.success);
    assert_eq!(Some(1), second.log_entry_index);
    assert_eq!(1, follower.total_log_entries());
    assert_eq!(b"once".to_vec(), entry_bytes(&follower, 1));
    assert_eq!(Some(1), follower.get_replicated_log().get_commit_index());
}

#[test]
fn empty_log_accepts_no_previous_index() {
    let mut follower = replica_state(20, 7192, &[7191]);
    let heartbeat = AppendEntries {
        term: 3,
        leader_id: 10,
        previous_log_index: None,
        previous_log_term: None,
        entry: None,
        leader_commit: None,
        correlation_id: 9,
    };
    let response = follower.handle_append_entries(heartbeat, 55);
    assert!(response.success);
    assert_eq!(3, response.term);
    assert_eq!(None, response.log_entry_index);
    assert_eq!(3, follower.get_term());
    assert_eq!(Some(55), follower.get_heartbeat_received_time());
}

#[test]
fn empty_log_rejects_previous_index_zero() {
    let mut follower = replica_state(20, 7192, &[7191]);
    let request = AppendEntries {
        term: 1,
        leader_id: 10,
        previous_log_index: Some(0),
        previous_log_term: Some(1),
        entry: Some(Entry { command: b"x".to_vec(), term: 1, index: 1 }),
        leader_commit: None,
        correlation_id: 9,
    };
    let response = follower.handle_append_entries(request, 0);
    assert!(!response.success);
    assert_eq!(0, follower.total_log_entries());
}

#[test]
fn stale_term_append_entries_rejected() {
    let mut follower = replica_state(20, 7192, &[7191]);
    follower.change_to_follower(5);
    let request = AppendEntries {
        term: 4,
        leader_id: 10,
        previous_log_index: None,
        previous_log_term: None,
        entry: Some(Entry { command: b"x".to_vec(), term: 4, index: 1 }),
        leader_commit: None,
        correlation_id: 9,
    };
    let response = follower.handle_append_entries(request, 0);
    assert!(!response.success);
    assert_eq!(5, response.term);
    assert_eq!(0, follower.total_log_entries());
    assert_eq!(None, follower.get_heartbeat_received_time());
}

#[test]
fn higher_term_response_steps_leader_down() {
    let (mut leader, mut cursors, _followers) = elected_cluster();
    let response = AppendEntriesResponse { term: 9, success: false, correlation_id: 1, log_entry_index: None };
    let step = handle_append_entries_response(&mut leader, &mut cursors, 0, &response, 2);
    assert!(matches!(step, ReplicationStep::SteppedDown));
    assert_eq!(9, leader.get_term());
    assert_eq!(ReplicaRole::Follower, leader.get_role());
}

#[test]
fn heartbeat_carries_the_leaders_position_and_moves_commit() {
    let (mut leader, mut cursors, mut followers) = elected_cluster();
    let factory = BuiltInServiceRequestFactory::new();
    let empty = factory.heartbeat(leader.get_term(), 10, leader.get_replicated_log(), 4);
    assert_eq!(None, empty.previous_log_index);
    assert_eq!(None, empty.previous_log_term);
    assert_eq!(None, empty.leader_commit);
    assert_eq!(None, empty.entry);

    leader.execute(Command { command: b"replicate".to_vec() }).unwrap();
    replication_round(&mut leader, &mut cursors, &mut followers, 1);
    assert_eq!(None, followers[0].get_replicated_log().get_commit_index());

    let heartbeat = factory.heartbeat(leader.get_term(), 10, leader.get_replicated_log(), 5);
    assert_eq!(Some(1), heartbeat.previous_log_index);
    assert_eq!(Some(1), heartbeat.previous_log_term);
    assert_eq!(Some(1), heartbeat.leader_commit);
    let response = followers[0].handle_append_entries(heartbeat, 2);
    assert!(response.success);
    assert_eq!(Some(1), followers[0].get_replicated_log().get_commit_index());

    let mut behind = replica_state(40, 7194, &[7191]);
    let heartbeat = factory.heartbeat(leader.get_term(), 10, leader.get_replicated_log(), 6);
    assert!(!behind.handle_append_entries(heartbeat, 2).success);
    assert_eq!(None, behind.get_replicated_log().get_commit_index());
}
