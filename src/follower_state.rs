use vstd::prelude::*;

use dashmap::DashMap;

use crate::address::HostAndPort;
use crate::log::{log_wf, term_at, LogModel, ReplicatedLog};
use crate::messages::{AppendEntries, Entry};

verus! {

/// Next log indices keyed by peer position.
pub type CursorMap = DashMap<u64, u64>;

/// The cursors that a map of next log indices holds.
pub uninterp spec fn cursor_map(m: CursorMap) -> Map<u64, u64>;

/// Relies on `DashMap::new`: a new map holds nothing.
#[verifier::external_body]
fn new_cursor_map() -> (r: CursorMap)
    ensures
        cursor_map(r).is_empty(),
{
    DashMap::new()
}

/// Relies on `DashMap::insert`: afterwards the key maps to the value, and every other
/// key keeps its value.
#[verifier::external_body]
fn insert_cursor(m: &mut CursorMap, key: u64, value: u64)
    ensures
        cursor_map(*final(m)) == cursor_map(*old(m)).insert(key, value),
{
    m.insert(key, value);
}

/// Relies on `DashMap::get`: the value stored under the key, if there is one.
#[verifier::external_body]
fn get_cursor(m: &CursorMap, key: u64) -> (r: Option<u64>)
    ensures
        r == (if cursor_map(*m).contains_key(key) {
            Some(cursor_map(*m)[key])
        } else {
            None
        }),
{
    m.get(&key).map(|entry| *entry.value())
}

/// The previous index and term that go with a cursor: none before the first entry.
pub open spec fn previous_of(log: LogModel, next: u64) -> (Option<u64>, Option<u64>) {
    if next >= 2 {
        (Some((next - 1) as u64), term_at(log, next - 1))
    } else {
        (None, None)
    }
}

/// `q` is the `AppendEntries` that a leader of `term` sends to a follower whose cursor
/// is at `next`: the entry there, if the log has one, after the previous index and
/// term, with the leader's commit index.
pub open spec fn is_request_for(
    q: AppendEntries,
    log: LogModel,
    next: u64,
    term: u64,
    leader_id: u64,
    correlation_id: u128,
) -> bool {
    &&& q.term == term
    &&& q.leader_id == leader_id
    &&& q.correlation_id == correlation_id
    &&& (q.previous_log_index, q.previous_log_term) == previous_of(log, next)
    &&& q.leader_commit == log.commit_index
    &&& (q.entry is Some <==> 1 <= next <= log.entries.len())
    &&& q.entry is Some ==> {
        let e = log.entries[next - 1];
        &&& q.entry->0.term == e.term
        &&& q.entry->0.index == e.index
        &&& q.entry->0.command@ == e.bytes
    }
}

/// The leader's view of its followers: for each peer, the index of the next entry
/// to send it.
pub struct FollowerState {
    pub(crate) peers: Vec<HostAndPort>,
    pub(crate) next_log_index_by_peer: CursorMap,
}

impl FollowerState {
    pub open(crate) spec fn spec_peers(&self) -> Seq<HostAndPort> {
        self.peers@
    }

    /// The cursor of the peer at position `peer`.
    pub open(crate) spec fn spec_next(&self, peer: int) -> u64 {
        cursor_map(self.next_log_index_by_peer)[peer as u64]
    }

    /// The peer at position `p` has a cursor between 1 and one past the last index.
    pub open(crate) spec fn cursor_ok(&self, p: int, last_log_index: int) -> bool {
        &&& cursor_map(self.next_log_index_by_peer).contains_key(p as u64)
        &&& 1 <= self.spec_next(p) <= last_log_index + 1
    }

    /// Every peer has a cursor between 1 and one past the leader's last index.
    pub open(crate) spec fn wf(&self, last_log_index: int) -> bool {
        &&& self.peers@.len() < u64::MAX
        &&& forall|p: int|
            0 <= p < self.peers@.len() ==> #[trigger] self.cursor_ok(p, last_log_index)
    }

    /// Cursors for `peers`, each at one past the leader's last index.
    pub fn new(peers: Vec<HostAndPort>, last_log_index: u64) -> (r: FollowerState)
        requires
            last_log_index < u64::MAX,
            peers@.len() < u64::MAX,
        ensures
            r.wf(last_log_index as int),
            r.spec_peers() == peers@,
            forall|p: int| 0 <= p < peers@.len() ==> #[trigger] r.spec_next(p) == last_log_index + 1,
    {
        let mut next_log_index_by_peer = new_cursor_map();
        let mut i: usize = 0;
        while i < peers.len()
            invariant
                i <= peers@.len(),
                peers@.len() < u64::MAX,
                last_log_index < u64::MAX,
                forall|k: u64| #[trigger]
                    cursor_map(next_log_index_by_peer).contains_key(k) <==> k < i,
                forall|k: u64|
                    k < i ==> #[trigger] cursor_map(next_log_index_by_peer)[k] == last_log_index + 1,
            decreases peers@.len() - i,
        {
            insert_cursor(&mut next_log_index_by_peer, i as u64, last_log_index + 1);
            i = i + 1;
        }
        let r = FollowerState { peers, next_log_index_by_peer };
        assert forall|p: int| 0 <= p < r.peers@.len() implies #[trigger] r.cursor_ok(
            p,
            last_log_index as int,
        ) && r.spec_next(p) == last_log_index + 1 by {
            let k = p as u64;
            assert(k < i);
            assert(cursor_map(r.next_log_index_by_peer)[k] == last_log_index + 1);
        }
        r
    }

    pub fn get_peers(&self) -> (r: &Vec<HostAndPort>)
        ensures
            r@ == self.spec_peers(),
    {
        &self.peers
    }

    /// The position of `peer` among the peers, if it is one of them.
    pub fn peer_position(&self, peer: &HostAndPort) -> (r: Option<usize>)
        ensures
            r is Some ==> r->0 < self.spec_peers().len() && self.spec_peers()[r->0 as int]
                == *peer,
            r is None ==> forall|p: int|
                0 <= p < self.spec_peers().len() ==> self.spec_peers()[p] != *peer,
    {
        let mut i: usize = 0;
        while i < self.peers.len()
            invariant
                i <= self.peers@.len(),
                forall|p: int| 0 <= p < i ==> self.peers@[p] != *peer,
            decreases self.peers@.len() - i,
        {
            if self.peers[i] == *peer {
                return Some(i);
            }
            i = i + 1;
        }
        None
    }

    /// The index of the next entry to send to the peer at position `peer`.
    pub fn next_log_index(&self, peer: usize) -> (r: u64)
        requires
            exists|last_log_index: int| self.wf(last_log_index),
            peer < self.spec_peers().len(),
        ensures
            r == self.spec_next(peer as int),
    {
        let ghost last_log_index = choose|last_log_index: int| self.wf(last_log_index);
        assert(self.cursor_ok(peer as int, last_log_index));
        let r = get_cursor(&self.next_log_index_by_peer, peer as u64);
        r.unwrap()
    }

    /// The previous index and term for a cursor: the entry just before it, if any.
    pub fn previous_log_index_term(log: &ReplicatedLog, next: u64) -> (r: (Option<u64>, Option<u64>))
        ensures
            r == previous_of(log@, next),
    {
        if next >= 2 {
            (Some(next - 1), log.get_log_term_at(next - 1))
        } else {
            (None, None)
        }
    }

    /// The `AppendEntries` for the peer at position `peer`: the entry at its cursor, if
    /// the log has one, after the previous index and term, with the leader's commit index.
    pub fn service_request(
        &self,
        peer: usize,
        log: &ReplicatedLog,
        term: u64,
        leader_id: u64,
        correlation_id: u128,
    ) -> (r: AppendEntries)
        requires
            log_wf(log@),
            self.wf(log@.entries.len() as int),
            peer < self.spec_peers().len(),
        ensures
            is_request_for(r, log@, self.spec_next(peer as int), term, leader_id, correlation_id),
    {
        let next = self.next_log_index(peer);
        assert(self.cursor_ok(peer as int, log@.entries.len() as int));
        let (previous_log_index, previous_log_term) = Self::previous_log_index_term(log, next);
        let entry = match log.get_log_entry_at(next) {
            None => None,
            Some(e) => Some(Entry { command: e.get_bytes_as_vec(), term: e.get_term(), index: e.get_index() }),
        };
        AppendEntries {
            term,
            leader_id,
            previous_log_index,
            previous_log_term,
            entry,
            leader_commit: log.get_commit_index(),
            correlation_id,
        }
    }

    /// After the peer at position `peer` accepted the entry at `index`, its cursor moves
    /// past that entry.
    pub fn advance(&mut self, peer: usize, index: u64, last_log_index: u64)
        requires
            old(self).wf(last_log_index as int),
            peer < old(self).spec_peers().len(),
            1 <= index <= last_log_index,
            last_log_index < u64::MAX,
        ensures
            final(self).wf(last_log_index as int),
            final(self).spec_peers() == old(self).spec_peers(),
            final(self).spec_next(peer as int) == index + 1,
            forall|p: int|
                0 <= p < old(self).spec_peers().len() && p != peer ==> #[trigger] final(self).spec_next(p)
                    == old(self).spec_next(p),
    {
        insert_cursor(&mut self.next_log_index_by_peer, peer as u64, index + 1);
        assert forall|p: int| 0 <= p < self.peers@.len() && p != peer implies #[trigger] self.spec_next(p)
            == old(self).spec_next(p) by {
            assert(p as u64 != peer as u64);
        }
        assert forall|p: int| 0 <= p < self.peers@.len() implies #[trigger] self.cursor_ok(p, last_log_index as int) by {
            assert(old(self).cursor_ok(p, last_log_index as int));
            if p != peer {
                assert(p as u64 != peer as u64);
            }
        }
    }

    /// After the peer at position `peer` rejected a request, its cursor backs up by one
    /// entry and the request for the new cursor is returned; a cursor already at the
    /// first entry stays and nothing is returned.
    pub fn retry_replicate_log(
        &mut self,
        peer: usize,
        log: &ReplicatedLog,
        term: u64,
        leader_id: u64,
        correlation_id: u128,
    ) -> (r: Option<AppendEntries>)
        requires
            log_wf(log@),
            old(self).wf(log@.entries.len() as int),
            peer < old(self).spec_peers().len(),
        ensures
            final(self).wf(log@.entries.len() as int),
            final(self).spec_peers() == old(self).spec_peers(),
            final(self).spec_next(peer as int) == if old(self).spec_next(peer as int) >= 2 {
                (old(self).spec_next(peer as int) - 1) as u64
            } else {
                old(self).spec_next(peer as int)
            },
            r is Some <==> old(self).spec_next(peer as int) >= 2,
            r is Some ==> is_request_for(
                r->0,
                log@,
                final(self).spec_next(peer as int),
                term,
                leader_id,
                correlation_id,
            ) && r->0.entry is Some,
            forall|p: int|
                0 <= p < old(self).spec_peers().len() && p != peer ==> #[trigger] final(self).spec_next(p)
                    == old(self).spec_next(p),
    {
        let last = log.last_log_index();
        let next = self.next_log_index(peer);
        if next < 2 {
            return None;
        }
        insert_cursor(&mut self.next_log_index_by_peer, peer as u64, next - 1);
        assert forall|p: int| 0 <= p < self.peers@.len() && p != peer implies #[trigger] self.spec_next(p)
            == old(self).spec_next(p) by {
            assert(p as u64 != peer as u64);
        }
        assert forall|p: int| 0 <= p < self.peers@.len() implies #[trigger] self.cursor_ok(p, last as int) by {
            assert(old(self).cursor_ok(p, last as int));
            if p != peer {
                assert(p as u64 != peer as u64);
            }
        }
        assert(old(self).cursor_ok(peer as int, last as int));
        assert(log@.entries[next - 2].index == next - 1);
        Some(self.service_request(peer, log, term, leader_id, correlation_id))
    }
}

} // verus!
