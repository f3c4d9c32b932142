use vstd::prelude::*;

use crate::address::HostAndPort;
use crate::errors::ReplicaError;

verus! {

/// The key of a pending response: the request's correlation id and the peer asked.
pub type PendingKey = (u128, HostAndPort);

/// The table of responses awaited: each slot is registered before its request goes
/// out and leaves exactly once, when its response arrives or when it is cancelled.
pub struct PendingResponses {
    pub(crate) keys: Vec<PendingKey>,
}

impl View for PendingResponses {
    type V = Set<PendingKey>;

    open(crate) spec fn view(&self) -> Set<PendingKey> {
        self.keys@.to_set()
    }
}

impl PendingResponses {
    /// Each slot is held once.
    pub open(crate) spec fn wf(&self) -> bool {
        self.keys@.no_duplicates()
    }

    /// The number of slots held.
    pub open(crate) spec fn spec_len(&self) -> nat {
        self.keys@.len()
    }

    pub fn new() -> (r: PendingResponses)
        ensures
            r.wf(),
            r@ == Set::<PendingKey>::empty(),
            r.spec_len() == 0,
    {
        let r = PendingResponses { keys: Vec::new() };
        assert(r@ =~= Set::<PendingKey>::empty());
        r
    }

    /// The number of slots held.
    pub fn len(&self) -> (r: usize)
        ensures
            r == self.spec_len(),
    {
        self.keys.len()
    }

    fn position(&self, correlation_id: u128, peer: HostAndPort) -> (r: Option<usize>)
        ensures
            r is Some ==> r->0 < self.keys@.len() && self.keys@[r->0 as int] == (correlation_id, peer),
            r is None ==> !self@.contains((correlation_id, peer)),
    {
        let mut i: usize = 0;
        while i < self.keys.len()
            invariant
                i <= self.keys@.len(),
                forall|j: int| 0 <= j < i ==> self.keys@[j] != (correlation_id, peer),
            decreases self.keys@.len() - i,
        {
            let (c, p) = self.keys[i];
            if c == correlation_id && p == peer {
                return Some(i);
            }
            i = i + 1;
        }
        None
    }

    /// Whether a slot is held for the key.
    pub fn is_pending(&self, correlation_id: u128, peer: HostAndPort) -> (r: bool)
        ensures
            r == self@.contains((correlation_id, peer)),
    {
        self.position(correlation_id, peer).is_some()
    }

    /// Registers a slot before the request goes out; a key already held is left as it
    /// is and reported.
    pub fn register_pending(&mut self, correlation_id: u128, peer: HostAndPort) -> (r: bool)
        requires
            old(self).wf(),
        ensures
            final(self).wf(),
            r == !old(self)@.contains((correlation_id, peer)),
            final(self)@ == old(self)@.insert((correlation_id, peer)),
            final(self).spec_len() == old(self).spec_len() + if r {
                1nat
            } else {
                0nat
            },
    {
        if self.position(correlation_id, peer).is_some() {
            assert(self@.insert((correlation_id, peer)) =~= self@);
            return false;
        }
        self.keys.push((correlation_id, peer));
        assert(self@ =~= old(self)@.insert((correlation_id, peer))) by {
            assert forall|k: PendingKey| self@.contains(k) <==> old(self)@.contains(k) || k == (
                correlation_id,
                peer,
            ) by {
                if self@.contains(k) {
                    let j = choose|j: int| 0 <= j < self.keys@.len() && self.keys@[j] == k;
                    if j < old(self).keys@.len() {
                        assert(old(self).keys@[j] == k);
                    }
                }
                if old(self)@.contains(k) {
                    let j = choose|j: int| 0 <= j < old(self).keys@.len() && old(self).keys@[j] == k;
                    assert(self.keys@[j] == k);
                }
                if k == (correlation_id, peer) {
                    assert(self.keys@[self.keys@.len() - 1] == k);
                }
            }
        }
        true
    }

    /// Removes the slot of the key, if held; returns whether it was.
    fn take(&mut self, correlation_id: u128, peer: HostAndPort) -> (r: bool)
        requires
            old(self).wf(),
        ensures
            final(self).wf(),
            r == old(self)@.contains((correlation_id, peer)),
            final(self)@ == old(self)@.remove((correlation_id, peer)),
            final(self).spec_len() == old(self).spec_len() - if r {
                1int
            } else {
                0int
            },
    {
        match self.position(correlation_id, peer) {
            None => {
                assert(self@.remove((correlation_id, peer)) =~= self@);
                false
            },
            Some(i) => {
                let ghost k = (correlation_id, peer);
                self.keys.remove(i);
                assert forall|a: int, b: int|
                    0 <= a < b < self.keys@.len() implies self.keys@[a] != self.keys@[b] by {
                    let oa = if a < i {
                        a
                    } else {
                        a + 1
                    };
                    let ob = if b < i {
                        b
                    } else {
                        b + 1
                    };
                    assert(self.keys@[a] == old(self).keys@[oa]);
                    assert(self.keys@[b] == old(self).keys@[ob]);
                }
                assert(self@ =~= old(self)@.remove(k)) by {
                    assert forall|x: PendingKey| self@.contains(x) <==> old(self)@.contains(x) && x != k by {
                        if self@.contains(x) {
                            let j = choose|j: int| 0 <= j < self.keys@.len() && self.keys@[j] == x;
                            let oj = if j < i {
                                j
                            } else {
                                j + 1
                            };
                            assert(old(self).keys@[oj] == x);
                            assert(oj != i);
                        }
                        if old(self)@.contains(x) && x != k {
                            let j = choose|j: int| 0 <= j < old(self).keys@.len() && old(self).keys@[j] == x;
                            assert(j != i);
                            let nj = if j < i {
                                j
                            } else {
                                j - 1
                            };
                            assert(self.keys@[nj] == x);
                        }
                    }
                }
                true
            },
        }
    }

    /// Resolves the slot of an arriving response; a response with no slot (late, or
    /// never asked for) is dropped. Returns whether there was a slot.
    pub fn register_response(&mut self, correlation_id: u128, peer: HostAndPort) -> (r: bool)
        requires
            old(self).wf(),
        ensures
            final(self).wf(),
            r == old(self)@.contains((correlation_id, peer)),
            final(self)@ == old(self)@.remove((correlation_id, peer)),
            final(self).spec_len() == old(self).spec_len() - if r {
                1int
            } else {
                0int
            },
    {
        self.take(correlation_id, peer)
    }

    /// Cancels the slot of a request whose response is no longer awaited. Returns
    /// whether there was a slot.
    pub fn cancel(&mut self, correlation_id: u128, peer: HostAndPort) -> (r: bool)
        requires
            old(self).wf(),
        ensures
            final(self).wf(),
            r == old(self)@.contains((correlation_id, peer)),
            final(self)@ == old(self)@.remove((correlation_id, peer)),
            final(self).spec_len() == old(self).spec_len() - if r {
                1int
            } else {
                0int
            },
    {
        self.take(correlation_id, peer)
    }
}

/// The slots of a broadcast: one for each of the first `n` peers, under one id.
pub open spec fn slots_of(correlation_id: u128, peers: Seq<HostAndPort>, n: int) -> Set<PendingKey> {
    Set::new(
        |k: PendingKey| k.0 == correlation_id && exists|j: int| 0 <= j < n && #[trigger] peers[j] == k.1,
    )
}

impl PendingResponses {
    /// Registers a slot for every peer before a broadcast under `correlation_id`;
    /// returns how many were new.
    pub fn register_all(&mut self, correlation_id: u128, peers: &Vec<HostAndPort>) -> (r: usize)
        requires
            old(self).wf(),
        ensures
            final(self).wf(),
            final(self)@ == old(self)@.union(slots_of(correlation_id, peers@, peers@.len() as int)),
            final(self).spec_len() == old(self).spec_len() + r,
            r <= peers@.len(),
    {
        let mut added: usize = 0;
        let mut i: usize = 0;
        while i < peers.len()
            invariant
                self.wf(),
                i <= peers@.len(),
                added <= i,
                self.spec_len() == old(self).spec_len() + added,
                self@ == old(self)@.union(slots_of(correlation_id, peers@, i as int)),
            decreases peers@.len() - i,
        {
            if self.register_pending(correlation_id, peers[i]) {
                added = added + 1;
            }
            assert(self@ =~= old(self)@.union(slots_of(correlation_id, peers@, i + 1))) by {
                assert forall|k: PendingKey| #[trigger] slots_of(correlation_id, peers@, i + 1).contains(
                    k,
                ) implies slots_of(correlation_id, peers@, i as int).contains(k) || k == (
                    correlation_id,
                    peers@[i as int],
                ) by {
                    let j = choose|j: int| 0 <= j < i + 1 && #[trigger] peers@[j] == k.1;
                    if j < i {
                        assert(slots_of(correlation_id, peers@, i as int).contains(k));
                    }
                }
                assert(slots_of(correlation_id, peers@, i + 1).contains(
                    (correlation_id, peers@[i as int]),
                ));
                assert forall|k: PendingKey| #[trigger] slots_of(correlation_id, peers@, i as int).contains(
                    k,
                ) implies slots_of(correlation_id, peers@, i + 1).contains(k) by {
                    let j = choose|j: int| 0 <= j < i && #[trigger] peers@[j] == k.1;
                    assert(0 <= j < i + 1 && peers@[j] == k.1);
                }
            }
            i = i + 1;
        }
        added
    }

    /// Cancels whatever slots of a broadcast under `correlation_id` are still held, once
    /// its quorum is reached or its time is up; returns how many there were.
    pub fn cancel_all(&mut self, correlation_id: u128, peers: &Vec<HostAndPort>) -> (r: usize)
        requires
            old(self).wf(),
        ensures
            final(self).wf(),
            final(self)@ == old(self)@.difference(slots_of(correlation_id, peers@, peers@.len() as int)),
            final(self).spec_len() + r == old(self).spec_len(),
            r <= peers@.len(),
    {
        let mut removed: usize = 0;
        let mut i: usize = 0;
        while i < peers.len()
            invariant
                self.wf(),
                i <= peers@.len(),
                removed <= i,
                self.spec_len() + removed == old(self).spec_len(),
                self@ == old(self)@.difference(slots_of(correlation_id, peers@, i as int)),
            decreases peers@.len() - i,
        {
            if self.cancel(correlation_id, peers[i]) {
                removed = removed + 1;
            }
            assert(self@ =~= old(self)@.difference(slots_of(correlation_id, peers@, i + 1))) by {
                assert forall|k: PendingKey| #[trigger] slots_of(correlation_id, peers@, i + 1).contains(
                    k,
                ) implies slots_of(correlation_id, peers@, i as int).contains(k) || k == (
                    correlation_id,
                    peers@[i as int],
                ) by {
                    let j = choose|j: int| 0 <= j < i + 1 && #[trigger] peers@[j] == k.1;
                    if j < i {
                        assert(slots_of(correlation_id, peers@, i as int).contains(k));
                    }
                }
                assert(slots_of(correlation_id, peers@, i + 1).contains(
                    (correlation_id, peers@[i as int]),
                ));
                assert forall|k: PendingKey| #[trigger] slots_of(correlation_id, peers@, i as int).contains(
                    k,
                ) implies slots_of(correlation_id, peers@, i + 1).contains(k) by {
                    let j = choose|j: int| 0 <= j < i && #[trigger] peers@[j] == k.1;
                    assert(0 <= j < i + 1 && peers@[j] == k.1);
                }
            }
            i = i + 1;
        }
        removed
    }
}

/// Decides a wait for a quorum: done once `quorum` responses succeeded, a timeout
/// once the time is up without them, and otherwise still waiting.
pub fn await_quorum_step(successes: u32, quorum: u32, timed_out: bool) -> (r: Option<
    Result<(), ReplicaError>,
>)
    ensures
        successes >= quorum ==> r == Some(Ok::<(), ReplicaError>(())),
        successes < quorum && timed_out ==> r == Some(Err::<(), ReplicaError>(ReplicaError::Timeout)),
        successes < quorum && !timed_out ==> r is None,
{
    if successes >= quorum {
        Some(Ok(()))
    } else if timed_out {
        Some(Err(ReplicaError::Timeout))
    } else {
        None
    }
}

} // verus!
