use raft_core::codec::{
    decode_append_entries, decode_append_response, decode_request_vote, decode_vote_response,
    encode_append_entries, encode_append_response, encode_request_vote, encode_vote_response,
};
use raft_core::messages::{AppendEntries, AppendEntriesResponse, Entry, RequestVote, RequestVoteResponse};

#[test]
fn request_vote_round_trip() {
    let request = RequestVote {
        term: 0x0102_0304_0506_0708,
        replica_id: 10,
        last_log_index: 3,
        last_log_term: 2,
        correlation_id: (1u128 << 64) | 5,
    };
    let bytes = encode_request_vote(&request);
    assert_eq!(48, bytes.len());
    assert_eq!(vec![8, 7, 6, 5, 4, 3, 2, 1], bytes[0..8].to_vec());
    assert_eq!(vec![5, 0, 0, 0, 0, 0, 0, 0, 1, 0, 0, 0, 0, 0, 0, 0], bytes[32..48].to_vec());
    assert_eq!(Some(request), decode_request_vote(&bytes));
    assert_eq!(None, decode_request_vote(&bytes[0..47].to_vec()));
}

#[test]
fn vote_response_round_trip() {
    let response = RequestVoteResponse { term: 7, voted: true, correlation_id: 99 };
    let bytes = encode_vote_response(&response);
    assert_eq!(25, bytes.len());
    assert_eq!(1, bytes[8]);
    assert_eq!(Some(response), decode_vote_response(&bytes));
    let mut bad_flag = bytes.clone();
    bad_flag[8] = 2;
    assert_eq!(None, decode_vote_response(&bad_flag));
}

#[test]
fn append_response_round_trip() {
    let with_index = AppendEntriesResponse { term: 4, success: true, correlation_id: 3, log_entry_index: Some(12) };
    let bytes = encode_append_response(&with_index);
    assert_eq!(34, bytes.len());
    assert_eq!(Some(with_index), decode_append_response(&bytes));

    let without = AppendEntriesResponse { term: 4, success: false, correlation_id: 3, log_entry_index: None };
    let bytes = encode_append_response(&without);
    assert_eq!(26, bytes.len());
    assert_eq!(0, bytes[25]);
    assert_eq!(Some(without), decode_append_response(&bytes));

    let mut truncated = encode_append_response(&with_index);
    truncated.pop();
    assert_eq!(None, decode_append_response(&truncated));
}

#[test]
fn append_entries_round_trip() {
    let request = AppendEntries {
        term: 3,
        leader_id: 10,
        previous_log_index: Some(2),
        previous_log_term: None,
        entry: Some(Entry { command: b"replicate".to_vec(), term: 3, index: 3 }),
        leader_commit: Some(1),
        correlation_id: 77,
    };
    let bytes = encode_append_entries(&request);
    assert_eq!(76 + 9, bytes.len());
    assert_eq!(1, bytes[59]);
    assert_eq!(b"replicate".to_vec(), bytes[76..].to_vec());
    assert_eq!(Some(request), decode_append_entries(&bytes));
}

#[test]
fn heartbeat_round_trip_and_malformed_slots() {
    let heartbeat = AppendEntries {
        term: 1,
        leader_id: 10,
        previous_log_index: None,
        previous_log_term: None,
        entry: None,
        leader_commit: None,
        correlation_id: 5,
    };
    let bytes = encode_append_entries(&heartbeat);
    assert_eq!(60, bytes.len());
    assert_eq!(Some(heartbeat), decode_append_entries(&bytes));
    let mut padded = bytes.clone();
    padded[33] = 9;
    assert_eq!(None, decode_append_entries(&padded));
    let mut longer = bytes.clone();
    longer.push(0);
    assert_eq!(None, decode_append_entries(&longer));
}

#[test]
fn command_round_trip() {
    let command = raft_core::messages::Command { command: b"replicate".to_vec() };
    let bytes = raft_core::codec::encode_command(&command);
    assert_eq!(b"replicate".to_vec(), bytes);
    assert_eq!(command, raft_core::codec::decode_command(&bytes));
}
