use raft_core::address::{HostAndPort, IpAddress};
use raft_core::follower_state::FollowerState;
use raft_core::log::ReplicatedLog;
use raft_core::messages::AppendEntries;

fn localhost(port: u16) -> HostAndPort {
    HostAndPort::new(IpAddress::V4(0x7f00_0001), port)
}

fn request_for_peer(log: &ReplicatedLog, cursors: &FollowerState, term: u64) -> AppendEntries {
    cursors.service_request(0, log, term, 30, 77)
}

#[test]
fn service_request_with_term() {
    let log = ReplicatedLog::new();
    let follower_state = FollowerState::new(vec![localhost(2061)], 0);
    let payload = request_for_peer(&log, &follower_state, 1);
    assert_eq!(1, payload.term);
    assert_eq!(30, payload.leader_id);
    assert_eq!(77, payload.correlation_id);
}

#[test]
fn service_request_with_no_entry() {
    let log = ReplicatedLog::new();
    let follower_state = FollowerState::new(vec![localhost(2061)], 0);
    let payload = request_for_peer(&log, &follower_state, 1);
    assert_eq!(None, payload.entry);
}

#[test]
fn service_request_with_an_entry() {
    let mut log = ReplicatedLog::new();
    let follower_state = FollowerState::new(vec![localhost(2061)], 0);
    let content = String::from("Content");
    log.append_command(content.as_bytes().to_vec(), 1);
    log.append_command(content.as_bytes().to_vec(), 1);

    let payload = request_for_peer(&log, &follower_state, 1);
    let entry = payload.entry.as_ref().unwrap();
    assert_eq!(1, entry.term);
    assert_eq!(1, entry.index);
    assert_eq!(b"Content".to_vec(), entry.command);
}

#[test]
fn service_request_on_empty_log_has_no_previous_index() {
    let log = ReplicatedLog::new();
    let follower_state = FollowerState::new(vec![localhost(2061)], 0);
    let payload = request_for_peer(&log, &follower_state, 1);
    assert_eq!(None, payload.previous_log_index);
    assert_eq!(None, payload.previous_log_term);
    assert_eq!(None, payload.leader_commit);
}

#[test]
fn cursors_start_past_the_last_entry() {
    let mut log = ReplicatedLog::new();
    log.append_command(b"a".to_vec(), 1);
    log.append_command(b"b".to_vec(), 2);
    let follower_state = FollowerState::new(vec![localhost(2061), localhost(2062)], 2);
    assert_eq!(3, follower_state.next_log_index(0));
    assert_eq!(3, follower_state.next_log_index(1));
    let payload = request_for_peer(&log, &follower_state, 2);
    assert_eq!(Some(2), payload.previous_log_index);
    assert_eq!(Some(2), payload.previous_log_term);
    assert_eq!(None, payload.entry);
}

#[test]
fn retry_backs_up_one_entry_and_stops_at_the_first() {
    let mut log = ReplicatedLog::new();
    log.append_command(b"a".to_vec(), 1);
    let mut follower_state = FollowerState::new(vec![localhost(2061)], 1);
    let retry = follower_state.retry_replicate_log(0, &log, 1, 30, 5).unwrap();
    assert_eq!(1, follower_state.next_log_index(0));
    assert_eq!(None, retry.previous_log_index);
    assert_eq!(1, retry.entry.unwrap().index);
    assert!(follower_state.retry_replicate_log(0, &log, 1, 30, 6).is_none());
    assert_eq!(1, follower_state.next_log_index(0));
}

#[test]
fn advance_moves_only_that_peer() {
    let mut log = ReplicatedLog::new();
    log.append_command(b"a".to_vec(), 1);
    let mut follower_state = FollowerState::new(vec![localhost(2061), localhost(2062)], 0);
    follower_state.advance(1, 1, 1);
    assert_eq!(1, follower_state.next_log_index(0));
    assert_eq!(2, follower_state.next_log_index(1));
}

#[test]
fn peer_position_finds_addresses() {
    let follower_state = FollowerState::new(vec![localhost(2061), localhost(2062)], 0);
    assert_eq!(Some(1), follower_state.peer_position(&localhost(2062)));
    assert_eq!(None, follower_state.peer_position(&localhost(2063)));
}
