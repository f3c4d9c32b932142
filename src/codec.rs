use vstd::prelude::*;

use crate::messages::{AppendEntries, AppendEntriesResponse, Command, Entry, RequestVote, RequestVoteResponse};

verus! {

/// The eight bytes of `x`, least significant first.
pub open spec fn le_bytes(x: u64) -> Seq<u8> {
    seq![
        x as u8,
        (x >> 8u64) as u8,
        (x >> 16u64) as u8,
        (x >> 24u64) as u8,
        (x >> 32u64) as u8,
        (x >> 40u64) as u8,
        (x >> 48u64) as u8,
        (x >> 56u64) as u8,
    ]
}

/// The integer whose bytes, least significant first, are `b0` to `b7`.
pub open spec fn pack(b0: u8, b1: u8, b2: u8, b3: u8, b4: u8, b5: u8, b6: u8, b7: u8) -> u64 {
    (b0 as u64) | ((b1 as u64) << 8u64) | ((b2 as u64) << 16u64) | ((b3 as u64) << 24u64) | ((
    b4 as u64) << 32u64) | ((b5 as u64) << 40u64) | ((b6 as u64) << 48u64) | ((b7 as u64)
        << 56u64)
}

/// The integer held in the eight bytes of `s` from `pos`.
pub open spec fn u64_at(s: Seq<u8>, pos: int) -> u64 {
    pack(s[pos], s[pos + 1], s[pos + 2], s[pos + 3], s[pos + 4], s[pos + 5], s[pos + 6], s[pos + 7])
}

/// The sixteen bytes of `x`: its low half, then its high half.
pub open spec fn u128_bytes(x: u128) -> Seq<u8> {
    le_bytes(x as u64) + le_bytes((x >> 64u128) as u64)
}

/// The 128-bit integer held in the sixteen bytes of `s` from `pos`.
pub open spec fn u128_at(s: Seq<u8>, pos: int) -> u128 {
    ((u64_at(s, pos + 8) as u128) << 64u128) | (u64_at(s, pos) as u128)
}

/// A flag as one byte: 1 or 0.
pub open spec fn bool_byte(b: bool) -> u8 {
    if b {
        1
    } else {
        0
    }
}

/// An optional integer: 0, or 1 followed by its bytes.
pub open spec fn option_bytes(o: Option<u64>) -> Seq<u8> {
    match o {
        None => seq![0u8],
        Some(x) => seq![1u8] + le_bytes(x),
    }
}

/// The encoding of a `RequestVote`: its four integers, then its correlation id.
pub open spec fn request_vote_bytes(m: RequestVote) -> Seq<u8> {
    le_bytes(m.term) + le_bytes(m.replica_id) + le_bytes(m.last_log_index) + le_bytes(
        m.last_log_term,
    ) + u128_bytes(m.correlation_id)
}

/// The `RequestVote` that 48 bytes hold.
pub open spec fn request_vote_of(s: Seq<u8>) -> RequestVote {
    RequestVote {
        term: u64_at(s, 0),
        replica_id: u64_at(s, 8),
        last_log_index: u64_at(s, 16),
        last_log_term: u64_at(s, 24),
        correlation_id: u128_at(s, 32),
    }
}

/// The encoding of a `RequestVoteResponse`: its term, its flag, its correlation id.
pub open spec fn vote_response_bytes(m: RequestVoteResponse) -> Seq<u8> {
    le_bytes(m.term) + seq![bool_byte(m.voted)] + u128_bytes(m.correlation_id)
}

/// The `RequestVoteResponse` that 25 bytes hold.
pub open spec fn vote_response_of(s: Seq<u8>) -> RequestVoteResponse {
    RequestVoteResponse { term: u64_at(s, 0), voted: s[8] == 1, correlation_id: u128_at(s, 9) }
}

/// The encoding of an `AppendEntriesResponse`: its term, its flag, its correlation id,
/// then the optional index of the entry.
pub open spec fn append_response_bytes(m: AppendEntriesResponse) -> Seq<u8> {
    le_bytes(m.term) + seq![bool_byte(m.success)] + u128_bytes(m.correlation_id) + option_bytes(
        m.log_entry_index,
    )
}

/// The `AppendEntriesResponse` that 26 or 34 bytes hold.
pub open spec fn append_response_of(s: Seq<u8>) -> AppendEntriesResponse {
    AppendEntriesResponse {
        term: u64_at(s, 0),
        success: s[8] == 1,
        correlation_id: u128_at(s, 9),
        log_entry_index: if s[25] == 1 {
            Some(u64_at(s, 26))
        } else {
            None
        },
    }
}

/// Bytes that hold a `RequestVoteResponse`: the right length and a flag of 0 or 1.
pub open spec fn is_vote_response(s: Seq<u8>) -> bool {
    s.len() == 25 && s[8] <= 1
}

/// Bytes that hold an `AppendEntriesResponse`: a flag of 0 or 1, and a length that
/// agrees with the tag of the optional index.
pub open spec fn is_append_response(s: Seq<u8>) -> bool {
    &&& s.len() >= 26
    &&& s[8] <= 1
    &&& (s[25] == 0 && s.len() == 26 || s[25] == 1 && s.len() == 34)
}

proof fn lemma_pack_of_bytes(x: u64)
    by (bit_vector)
    ensures
        pack(
            x as u8,
            (x >> 8u64) as u8,
            (x >> 16u64) as u8,
            (x >> 24u64) as u8,
            (x >> 32u64) as u8,
            (x >> 40u64) as u8,
            (x >> 48u64) as u8,
            (x >> 56u64) as u8,
        ) == x,
{
}

proof fn lemma_bytes_of_pack(b0: u8, b1: u8, b2: u8, b3: u8, b4: u8, b5: u8, b6: u8, b7: u8)
    by (bit_vector)
    ensures
        pack(b0, b1, b2, b3, b4, b5, b6, b7) as u8 == b0,
        (pack(b0, b1, b2, b3, b4, b5, b6, b7) >> 8u64) as u8 == b1,
        (pack(b0, b1, b2, b3, b4, b5, b6, b7) >> 16u64) as u8 == b2,
        (pack(b0, b1, b2, b3, b4, b5, b6, b7) >> 24u64) as u8 == b3,
        (pack(b0, b1, b2, b3, b4, b5, b6, b7) >> 32u64) as u8 == b4,
        (pack(b0, b1, b2, b3, b4, b5, b6, b7) >> 40u64) as u8 == b5,
        (pack(b0, b1, b2, b3, b4, b5, b6, b7) >> 48u64) as u8 == b6,
        (pack(b0, b1, b2, b3, b4, b5, b6, b7) >> 56u64) as u8 == b7,
{
}

proof fn lemma_halves_of_u128(x: u128)
    by (bit_vector)
    ensures
        ((((x >> 64u128) as u64) as u128) << 64u128) | ((x as u64) as u128) == x,
{
}

proof fn lemma_u128_of_halves(lo: u64, hi: u64)
    by (bit_vector)
    ensures
        ((((hi as u128) << 64u128) | (lo as u128)) as u64) == lo,
        ((((hi as u128) << 64u128) | (lo as u128)) >> 64u128) as u64 == hi,
{
}

/// Reading back the bytes of an integer gives the integer.
proof fn lemma_u64_round_trip(s: Seq<u8>, pos: int, x: u64)
    requires
        0 <= pos,
        pos + 8 <= s.len(),
        s.subrange(pos, pos + 8) == le_bytes(x),
    ensures
        u64_at(s, pos) == x,
{
    assert(s[pos] == s.subrange(pos, pos + 8)[0]);
    assert(s[pos + 1] == s.subrange(pos, pos + 8)[1]);
    assert(s[pos + 2] == s.subrange(pos, pos + 8)[2]);
    assert(s[pos + 3] == s.subrange(pos, pos + 8)[3]);
    assert(s[pos + 4] == s.subrange(pos, pos + 8)[4]);
    assert(s[pos + 5] == s.subrange(pos, pos + 8)[5]);
    assert(s[pos + 6] == s.subrange(pos, pos + 8)[6]);
    assert(s[pos + 7] == s.subrange(pos, pos + 8)[7]);
    lemma_pack_of_bytes(x);
}

/// Writing out an integer read from bytes gives the bytes back.
proof fn lemma_u64_exact(s: Seq<u8>, pos: int)
    requires
        0 <= pos,
        pos + 8 <= s.len(),
    ensures
        le_bytes(u64_at(s, pos)) == s.subrange(pos, pos + 8),
{
    lemma_bytes_of_pack(s[pos], s[pos + 1], s[pos + 2], s[pos + 3], s[pos + 4], s[pos + 5], s[pos + 6], s[pos + 7]);
    assert(le_bytes(u64_at(s, pos)) =~= s.subrange(pos, pos + 8));
}

proof fn lemma_u128_round_trip(s: Seq<u8>, pos: int, x: u128)
    requires
        0 <= pos,
        pos + 16 <= s.len(),
        s.subrange(pos, pos + 16) == u128_bytes(x),
    ensures
        u128_at(s, pos) == x,
{
    assert(s.subrange(pos, pos + 8) =~= s.subrange(pos, pos + 16).subrange(0, 8));
    assert(s.subrange(pos + 8, pos + 16) =~= s.subrange(pos, pos + 16).subrange(8, 16));
    assert(u128_bytes(x).subrange(0, 8) =~= le_bytes(x as u64));
    assert(u128_bytes(x).subrange(8, 16) =~= le_bytes((x >> 64u128) as u64));
    lemma_u64_round_trip(s, pos, x as u64);
    lemma_u64_round_trip(s, pos + 8, (x >> 64u128) as u64);
    lemma_halves_of_u128(x);
}

proof fn lemma_u128_exact(s: Seq<u8>, pos: int)
    requires
        0 <= pos,
        pos + 16 <= s.len(),
    ensures
        u128_bytes(u128_at(s, pos)) == s.subrange(pos, pos + 16),
{
    lemma_u64_exact(s, pos);
    lemma_u64_exact(s, pos + 8);
    lemma_u128_of_halves(u64_at(s, pos), u64_at(s, pos + 8));
    assert(u128_bytes(u128_at(s, pos)) =~= s.subrange(pos, pos + 16));
}

/// Decoding the encoding of a `RequestVote` gives it back.
pub proof fn lemma_request_vote_round_trip(m: RequestVote)
    ensures
        request_vote_bytes(m).len() == 48,
        request_vote_of(request_vote_bytes(m)) == m,
{
    let s = request_vote_bytes(m);
    assert(s.subrange(0, 8) =~= le_bytes(m.term));
    assert(s.subrange(8, 16) =~= le_bytes(m.replica_id));
    assert(s.subrange(16, 24) =~= le_bytes(m.last_log_index));
    assert(s.subrange(24, 32) =~= le_bytes(m.last_log_term));
    assert(s.subrange(32, 48) =~= u128_bytes(m.correlation_id));
    lemma_u64_round_trip(s, 0, m.term);
    lemma_u64_round_trip(s, 8, m.replica_id);
    lemma_u64_round_trip(s, 16, m.last_log_index);
    lemma_u64_round_trip(s, 24, m.last_log_term);
    lemma_u128_round_trip(s, 32, m.correlation_id);
}

/// Encoding what 48 bytes decode to gives the same bytes.
pub proof fn lemma_request_vote_exact(s: Seq<u8>)
    requires
        s.len() == 48,
    ensures
        request_vote_bytes(request_vote_of(s)) == s,
{
    lemma_u64_exact(s, 0);
    lemma_u64_exact(s, 8);
    lemma_u64_exact(s, 16);
    lemma_u64_exact(s, 24);
    lemma_u128_exact(s, 32);
    assert(request_vote_bytes(request_vote_of(s)) =~= s);
}

/// Decoding the encoding of a `RequestVoteResponse` gives it back.
pub proof fn lemma_vote_response_round_trip(m: RequestVoteResponse)
    ensures
        is_vote_response(vote_response_bytes(m)),
        vote_response_of(vote_response_bytes(m)) == m,
{
    let s = vote_response_bytes(m);
    assert(s.subrange(0, 8) =~= le_bytes(m.term));
    assert(s.subrange(9, 25) =~= u128_bytes(m.correlation_id));
    assert(s[8] == bool_byte(m.voted));
    lemma_u64_round_trip(s, 0, m.term);
    lemma_u128_round_trip(s, 9, m.correlation_id);
}

/// Encoding what valid bytes decode to gives the same bytes.
pub proof fn lemma_vote_response_exact(s: Seq<u8>)
    requires
        is_vote_response(s),
    ensures
        vote_response_bytes(vote_response_of(s)) == s,
{
    lemma_u64_exact(s, 0);
    lemma_u128_exact(s, 9);
    assert(vote_response_bytes(vote_response_of(s)) =~= s);
}

/// Decoding the encoding of an `AppendEntriesResponse` gives it back.
pub proof fn lemma_append_response_round_trip(m: AppendEntriesResponse)
    ensures
        is_append_response(append_response_bytes(m)),
        append_response_of(append_response_bytes(m)) == m,
{
    let s = append_response_bytes(m);
    assert(s.subrange(0, 8) =~= le_bytes(m.term));
    assert(s.subrange(9, 25) =~= u128_bytes(m.correlation_id));
    assert(s[8] == bool_byte(m.success));
    lemma_u64_round_trip(s, 0, m.term);
    lemma_u128_round_trip(s, 9, m.correlation_id);
    match m.log_entry_index {
        None => {
            assert(s[25] == 0);
        },
        Some(x) => {
            assert(s[25] == 1);
            assert(s.subrange(26, 34) =~= le_bytes(x));
            lemma_u64_round_trip(s, 26, x);
        },
    }
}

/// Encoding what valid bytes decode to gives the same bytes.
pub proof fn lemma_append_response_exact(s: Seq<u8>)
    requires
        is_append_response(s),
    ensures
        append_response_bytes(append_response_of(s)) == s,
{
    lemma_u64_exact(s, 0);
    lemma_u128_exact(s, 9);
    if s[25] == 1 {
        lemma_u64_exact(s, 26);
    }
    assert(append_response_bytes(append_response_of(s)) =~= s);
}

#[verifier::truncate]
fn low_byte(x: u64) -> (r: u8)
    ensures
        r == x as u8,
{
    x as u8
}

fn put_u64(out: &mut Vec<u8>, x: u64)
    ensures
        final(out)@ == old(out)@ + le_bytes(x),
{
    out.push(low_byte(x));
    out.push(low_byte(x >> 8));
    out.push(low_byte(x >> 16));
    out.push(low_byte(x >> 24));
    out.push(low_byte(x >> 32));
    out.push(low_byte(x >> 40));
    out.push(low_byte(x >> 48));
    out.push(low_byte(x >> 56));
    assert(out@ =~= old(out)@ + le_bytes(x));
}

#[verifier::truncate]
fn low_half(x: u128) -> (r: u64)
    ensures
        r == x as u64,
{
    x as u64
}

fn put_u128(out: &mut Vec<u8>, x: u128)
    ensures
        final(out)@ == old(out)@ + u128_bytes(x),
{
    put_u64(out, low_half(x));
    put_u64(out, low_half(x >> 64));
    assert(out@ =~= old(out)@ + u128_bytes(x));
}

fn get_u64(b: &Vec<u8>, pos: usize) -> (r: u64)
    requires
        pos + 8 <= b@.len(),
    ensures
        r == u64_at(b@, pos as int),
{
    let n = b.len();
    assert(pos + 8 <= n);
    (b[pos] as u64) | ((b[pos + 1] as u64) << 8u64) | ((b[pos + 2] as u64) << 16u64) | ((b[pos
        + 3] as u64) << 24u64) | ((b[pos + 4] as u64) << 32u64) | ((b[pos + 5] as u64) << 40u64)
        | ((b[pos + 6] as u64) << 48u64) | ((b[pos + 7] as u64) << 56u64)
}

fn get_u128(b: &Vec<u8>, pos: usize) -> (r: u128)
    requires
        pos + 16 <= b@.len(),
    ensures
        r == u128_at(b@, pos as int),
{
    let n = b.len();
    assert(pos + 16 <= n);
    let lo = get_u64(b, pos);
    let hi = get_u64(b, pos + 8);
    ((hi as u128) << 64u128) | (lo as u128)
}

/// The bytes of a `RequestVote`.
pub fn encode_request_vote(m: &RequestVote) -> (r: Vec<u8>)
    ensures
        r@ == request_vote_bytes(*m),
{
    let mut out: Vec<u8> = Vec::new();
    put_u64(&mut out, m.term);
    put_u64(&mut out, m.replica_id);
    put_u64(&mut out, m.last_log_index);
    put_u64(&mut out, m.last_log_term);
    put_u128(&mut out, m.correlation_id);
    assert(out@ =~= request_vote_bytes(*m));
    out
}

/// The `RequestVote` that the bytes hold; none unless there are exactly 48 of them.
pub fn decode_request_vote(b: &Vec<u8>) -> (r: Option<RequestVote>)
    ensures
        r == if b@.len() == 48 {
            Some(request_vote_of(b@))
        } else {
            None
        },
{
    if b.len() != 48 {
        return None;
    }
    Some(
        RequestVote {
            term: get_u64(b, 0),
            replica_id: get_u64(b, 8),
            last_log_index: get_u64(b, 16),
            last_log_term: get_u64(b, 24),
            correlation_id: get_u128(b, 32),
        },
    )
}

/// The bytes of a `RequestVoteResponse`.
pub fn encode_vote_response(m: &RequestVoteResponse) -> (r: Vec<u8>)
    ensures
        r@ == vote_response_bytes(*m),
{
    let mut out: Vec<u8> = Vec::new();
    put_u64(&mut out, m.term);
    out.push(if m.voted {
        1u8
    } else {
        0u8
    });
    put_u128(&mut out, m.correlation_id);
    assert(out@ =~= vote_response_bytes(*m));
    out
}

/// The `RequestVoteResponse` that the bytes hold; none unless they are valid.
pub fn decode_vote_response(b: &Vec<u8>) -> (r: Option<RequestVoteResponse>)
    ensures
        r == if is_vote_response(b@) {
            Some(vote_response_of(b@))
        } else {
            None
        },
{
    if b.len() != 25 || b[8] > 1 {
        return None;
    }
    Some(
        RequestVoteResponse {
            term: get_u64(b, 0),
            voted: b[8] == 1,
            correlation_id: get_u128(b, 9),
        },
    )
}

/// The bytes of an `AppendEntriesResponse`.
pub fn encode_append_response(m: &AppendEntriesResponse) -> (r: Vec<u8>)
    ensures
        r@ == append_response_bytes(*m),
{
    let mut out: Vec<u8> = Vec::new();
    put_u64(&mut out, m.term);
    out.push(if m.success {
        1u8
    } else {
        0u8
    });
    put_u128(&mut out, m.correlation_id);
    match m.log_entry_index {
        None => {
            out.push(0u8);
        },
        Some(x) => {
            out.push(1u8);
            put_u64(&mut out, x);
        },
    }
    assert(out@ =~= append_response_bytes(*m));
    out
}

/// The `AppendEntriesResponse` that the bytes hold; none unless they are valid.
pub fn decode_append_response(b: &Vec<u8>) -> (r: Option<AppendEntriesResponse>)
    ensures
        r == if is_append_response(b@) {
            Some(append_response_of(b@))
        } else {
            None
        },
{
    if b.len() < 26 || b[8] > 1 {
        return None;
    }
    let log_entry_index = if b[25] == 0 && b.len() == 26 {
        None
    } else if b[25] == 1 && b.len() == 34 {
        Some(get_u64(b, 26))
    } else {
        return None;
    };
    Some(
        AppendEntriesResponse {
            term: get_u64(b, 0),
            success: b[8] == 1,
            correlation_id: get_u128(b, 9),
            log_entry_index,
        },
    )
}

/// An optional integer in a fixed slot of nine bytes: a tag of 0 or 1, then the
/// integer's bytes, or zeros when there is none.
pub open spec fn option_slot(o: Option<u64>) -> Seq<u8> {
    match o {
        None => seq![0u8] + le_bytes(0),
        Some(x) => seq![1u8] + le_bytes(x),
    }
}

/// The optional integer in the nine-byte slot of `s` at `pos`.
pub open spec fn option_at(s: Seq<u8>, pos: int) -> Option<u64> {
    if s[pos] == 1 {
        Some(u64_at(s, pos + 1))
    } else {
        None
    }
}

/// A well-formed nine-byte slot: tag 1, or tag 0 followed by zeros.
pub open spec fn is_option_slot(s: Seq<u8>, pos: int) -> bool {
    s[pos] == 1 || (s[pos] == 0 && u64_at(s, pos + 1) == 0)
}

/// The encoding of an optional entry, placed last: 0, or 1 followed by the entry's
/// term, its index and then every byte of its command.
pub open spec fn entry_part(e: Option<Entry>) -> Seq<u8> {
    match e {
        None => seq![0u8],
        Some(e) => seq![1u8] + le_bytes(e.term) + le_bytes(e.index) + e.command@,
    }
}

/// The encoding of an `AppendEntries`: term, leader, correlation id, the slots of the
/// previous index, the previous term and the leader's commit index, then the entry.
pub open spec fn append_entries_bytes(m: AppendEntries) -> Seq<u8> {
    le_bytes(m.term) + le_bytes(m.leader_id) + u128_bytes(m.correlation_id) + option_slot(
        m.previous_log_index,
    ) + option_slot(m.previous_log_term) + option_slot(m.leader_commit) + entry_part(m.entry)
}

/// Bytes that hold an `AppendEntries`.
pub open spec fn is_append_entries(s: Seq<u8>) -> bool {
    &&& s.len() >= 60
    &&& is_option_slot(s, 32)
    &&& is_option_slot(s, 41)
    &&& is_option_slot(s, 50)
    &&& (s[59] == 0 && s.len() == 60 || s[59] == 1 && s.len() >= 76)
}

/// What the encoding of an `AppendEntries` says of it, field by field.
pub open spec fn append_entries_fields_match(m: AppendEntries, s: Seq<u8>) -> bool {
    &&& m.term == u64_at(s, 0)
    &&& m.leader_id == u64_at(s, 8)
    &&& m.correlation_id == u128_at(s, 16)
    &&& m.previous_log_index == option_at(s, 32)
    &&& m.previous_log_term == option_at(s, 41)
    &&& m.leader_commit == option_at(s, 50)
    &&& (m.entry is Some <==> s[59] == 1)
    &&& m.entry is Some ==> {
        &&& m.entry->0.term == u64_at(s, 60)
        &&& m.entry->0.index == u64_at(s, 68)
        &&& m.entry->0.command@ == s.subrange(76, s.len() as int)
    }
}

proof fn lemma_option_slot_round_trip(s: Seq<u8>, pos: int, o: Option<u64>)
    requires
        0 <= pos,
        pos + 9 <= s.len(),
        s.subrange(pos, pos + 9) == option_slot(o),
    ensures
        option_at(s, pos) == o,
        is_option_slot(s, pos),
{
    assert(s[pos] == s.subrange(pos, pos + 9)[0]);
    assert(s.subrange(pos + 1, pos + 9) =~= s.subrange(pos, pos + 9).subrange(1, 9));
    match o {
        None => {
            assert(option_slot(o).subrange(1, 9) =~= le_bytes(0));
            lemma_u64_round_trip(s, pos + 1, 0);
        },
        Some(x) => {
            assert(option_slot(o).subrange(1, 9) =~= le_bytes(x));
            lemma_u64_round_trip(s, pos + 1, x);
        },
    }
}

proof fn lemma_option_slot_exact(s: Seq<u8>, pos: int)
    requires
        0 <= pos,
        pos + 9 <= s.len(),
        is_option_slot(s, pos),
    ensures
        option_slot(option_at(s, pos)) == s.subrange(pos, pos + 9),
{
    lemma_u64_exact(s, pos + 1);
    assert(option_slot(option_at(s, pos)) =~= s.subrange(pos, pos + 9));
}

/// Decoding the encoding of an `AppendEntries` gives back every field, the bytes of
/// its entry's command included.
pub proof fn lemma_append_entries_round_trip(m: AppendEntries)
    ensures
        is_append_entries(append_entries_bytes(m)),
        append_entries_fields_match(m, append_entries_bytes(m)),
{
    let s = append_entries_bytes(m);
    assert(s.subrange(0, 8) =~= le_bytes(m.term));
    assert(s.subrange(8, 16) =~= le_bytes(m.leader_id));
    assert(s.subrange(16, 32) =~= u128_bytes(m.correlation_id));
    assert(s.subrange(32, 41) =~= option_slot(m.previous_log_index));
    assert(s.subrange(41, 50) =~= option_slot(m.previous_log_term));
    assert(s.subrange(50, 59) =~= option_slot(m.leader_commit));
    assert(s.subrange(59, s.len() as int) =~= entry_part(m.entry));
    lemma_u64_round_trip(s, 0, m.term);
    lemma_u64_round_trip(s, 8, m.leader_id);
    lemma_u128_round_trip(s, 16, m.correlation_id);
    lemma_option_slot_round_trip(s, 32, m.previous_log_index);
    lemma_option_slot_round_trip(s, 41, m.previous_log_term);
    lemma_option_slot_round_trip(s, 50, m.leader_commit);
    assert(s[59] == entry_part(m.entry)[0]);
    match m.entry {
        None => {},
        Some(e) => {
            assert(s.subrange(60, 68) =~= le_bytes(e.term));
            assert(s.subrange(68, 76) =~= le_bytes(e.index));
            assert(s.subrange(76, s.len() as int) =~= e.command@);
            lemma_u64_round_trip(s, 60, e.term);
            lemma_u64_round_trip(s, 68, e.index);
        },
    }
}

/// Two `AppendEntries` with the same encoding agree in every field.
pub proof fn lemma_append_entries_encoding_injective(a: AppendEntries, b: AppendEntries)
    requires
        append_entries_bytes(a) == append_entries_bytes(b),
    ensures
        a.term == b.term,
        a.leader_id == b.leader_id,
        a.correlation_id == b.correlation_id,
        a.previous_log_index == b.previous_log_index,
        a.previous_log_term == b.previous_log_term,
        a.leader_commit == b.leader_commit,
        a.entry is Some <==> b.entry is Some,
        a.entry is Some ==> a.entry->0.term == b.entry->0.term && a.entry->0.index
            == b.entry->0.index && a.entry->0.command@ == b.entry->0.command@,
{
    lemma_append_entries_round_trip(a);
    lemma_append_entries_round_trip(b);
}

fn put_option_slot(out: &mut Vec<u8>, o: Option<u64>)
    ensures
        final(out)@ == old(out)@ + option_slot(o),
{
    match o {
        None => {
            out.push(0u8);
            put_u64(out, 0);
        },
        Some(x) => {
            out.push(1u8);
            put_u64(out, x);
        },
    }
    assert(out@ =~= old(out)@ + option_slot(o));
}

/// The bytes of an `AppendEntries`.
pub fn encode_append_entries(m: &AppendEntries) -> (r: Vec<u8>)
    ensures
        r@ == append_entries_bytes(*m),
{
    let mut out: Vec<u8> = Vec::new();
    put_u64(&mut out, m.term);
    put_u64(&mut out, m.leader_id);
    put_u128(&mut out, m.correlation_id);
    put_option_slot(&mut out, m.previous_log_index);
    put_option_slot(&mut out, m.previous_log_term);
    put_option_slot(&mut out, m.leader_commit);
    let ghost before_entry = out@;
    match &m.entry {
        None => {
            out.push(0u8);
        },
        Some(e) => {
            out.push(1u8);
            put_u64(&mut out, e.term);
            put_u64(&mut out, e.index);
            let ghost start = out@;
            let mut i: usize = 0;
            while i < e.command.len()
                invariant
                    i <= e.command@.len(),
                    out@ == start + e.command@.subrange(0, i as int),
                decreases e.command@.len() - i,
            {
                out.push(e.command[i]);
                i = i + 1;
                assert(out@ =~= start + e.command@.subrange(0, i as int));
            }
            assert(e.command@.subrange(0, i as int) =~= e.command@);
        },
    }
    assert(out@ =~= before_entry + entry_part(m.entry));
    assert(out@ =~= append_entries_bytes(*m));
    out
}

fn get_option_slot(b: &Vec<u8>, pos: usize) -> (r: Option<Option<u64>>)
    requires
        pos + 9 <= b@.len(),
    ensures
        r is Some <==> is_option_slot(b@, pos as int),
        r is Some ==> r->0 == option_at(b@, pos as int),
{
    let n = b.len();
    assert(pos + 9 <= n);
    let tag = b[pos];
    let value = get_u64(b, pos + 1);
    if tag == 1 {
        Some(Some(value))
    } else if tag == 0 && value == 0 {
        Some(None)
    } else {
        None
    }
}

/// The `AppendEntries` that the bytes hold; none unless they are valid. Its encoding
/// is then exactly the bytes given.
pub fn decode_append_entries(b: &Vec<u8>) -> (r: Option<AppendEntries>)
    ensures
        r is Some <==> is_append_entries(b@),
        r is Some ==> append_entries_fields_match(r->0, b@),
        r is Some ==> append_entries_bytes(r->0) == b@,
{
    let n = b.len();
    if n < 60 {
        return None;
    }
    let previous_log_index = match get_option_slot(b, 32) {
        Some(o) => o,
        None => return None,
    };
    let previous_log_term = match get_option_slot(b, 41) {
        Some(o) => o,
        None => return None,
    };
    let leader_commit = match get_option_slot(b, 50) {
        Some(o) => o,
        None => return None,
    };
    let entry = if b[59] == 0 && n == 60 {
        None
    } else if b[59] == 1 && n >= 76 {
        let mut command: Vec<u8> = Vec::new();
        let mut i: usize = 76;
        while i < n
            invariant
                76 <= i <= n,
                n == b@.len(),
                command@ == b@.subrange(76, i as int),
            decreases n - i,
        {
            command.push(b[i]);
            i = i + 1;
            assert(command@ =~= b@.subrange(76, i as int));
        }
        Some(Entry { command, term: get_u64(b, 60), index: get_u64(b, 68) })
    } else {
        return None;
    };
    let m = AppendEntries {
        term: get_u64(b, 0),
        leader_id: get_u64(b, 8),
        previous_log_index,
        previous_log_term,
        entry,
        leader_commit,
        correlation_id: get_u128(b, 16),
    };
    proof {
        let s = b@;
        lemma_u64_exact(s, 0);
        lemma_u64_exact(s, 8);
        lemma_u128_exact(s, 16);
        lemma_option_slot_exact(s, 32);
        lemma_option_slot_exact(s, 41);
        lemma_option_slot_exact(s, 50);
        if s[59] == 1 {
            lemma_u64_exact(s, 60);
            lemma_u64_exact(s, 68);
            assert(entry_part(m.entry) =~= s.subrange(59, s.len() as int));
        } else {
            assert(entry_part(m.entry) =~= s.subrange(59, s.len() as int));
        }
        assert(append_entries_bytes(m) =~= s);
    }
    Some(m)
}

/// The bytes of a client `Command`: the command itself, framed by the transport.
pub fn encode_command(m: &Command) -> (r: Vec<u8>)
    ensures
        r@ == m.command@,
{
    let mut out: Vec<u8> = Vec::new();
    let mut i: usize = 0;
    while i < m.command.len()
        invariant
            i <= m.command@.len(),
            out@ == m.command@.subrange(0, i as int),
        decreases m.command@.len() - i,
    {
        out.push(m.command[i]);
        i = i + 1;
        assert(out@ =~= m.command@.subrange(0, i as int));
    }
    assert(m.command@.subrange(0, i as int) =~= m.command@);
    out
}

/// The client `Command` that the bytes hold: any bytes are one.
pub fn decode_command(b: &Vec<u8>) -> (r: Command)
    ensures
        r.command@ == b@,
{
    let mut command: Vec<u8> = Vec::new();
    let mut i: usize = 0;
    while i < b.len()
        invariant
            i <= b@.len(),
            command@ == b@.subrange(0, i as int),
        decreases b@.len() - i,
    {
        command.push(b[i]);
        i = i + 1;
        assert(command@ =~= b@.subrange(0, i as int));
    }
    assert(b@.subrange(0, i as int) =~= b@);
    Command { command }
}

} // verus!
