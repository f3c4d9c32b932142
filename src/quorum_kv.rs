use vstd::prelude::*;

use dashmap::DashMap;

use crate::address::{HostAndPort, IpAddress};
use crate::errors::ReplicaError;
use crate::pending::PendingResponses;

verus! {

/// Values with their timestamps, keyed by name.
pub type ValueMap = DashMap<String, (String, u64)>;

/// What a value map holds: for each key, its value and timestamp.
pub uninterp spec fn stored_values(m: ValueMap) -> Map<Seq<char>, (Seq<char>, u64)>;

/// Relies on `DashMap::new`: a new map holds nothing.
#[verifier::external_body]
fn new_value_map() -> (r: ValueMap)
    ensures
        stored_values(r).is_empty(),
{
    DashMap::new()
}

/// Relies on `DashMap::insert`: afterwards the key maps to the pair, and every other
/// key keeps its pair.
#[verifier::external_body]
fn insert_value(m: &mut ValueMap, key: String, value: String, timestamp: u64)
    ensures
        stored_values(*final(m)) == stored_values(*old(m)).insert(key@, (value@, timestamp)),
{
    m.insert(key, (value, timestamp));
}

/// Relies on `DashMap::get`: a copy of the pair stored under the key, if there is one.
#[verifier::external_body]
fn get_value(m: &ValueMap, key: &String) -> (r: Option<(String, u64)>)
    ensures
        r is Some <==> stored_values(*m).contains_key(key@),
        r is Some ==> {
            let (value, timestamp) = r->0;
            value@ == stored_values(*m)[key@].0 && timestamp == stored_values(*m)[key@].1
        },
{
    m.get(key).map(|entry| entry.value().clone())
}

/// A value with the timestamp of the write that stored it.
#[derive(Clone, Debug, PartialEq, Eq)]
pub struct Value {
    pub(crate) value: String,
    pub(crate) timestamp: u64,
}

impl Value {
    pub open(crate) spec fn spec_value(&self) -> Seq<char> {
        self.value@
    }

    pub open(crate) spec fn spec_timestamp(&self) -> u64 {
        self.timestamp
    }

    pub fn new(value: String, timestamp: u64) -> (r: Value)
        ensures
            r.spec_value() == value@,
            r.spec_timestamp() == timestamp,
    {
        Value { value, timestamp }
    }

    pub fn get_value(&self) -> (r: &String)
        ensures
            r@ == self.spec_value(),
    {
        &self.value
    }

    pub fn get_timestamp(&self) -> (r: u64)
        ensures
            r == self.spec_timestamp(),
    {
        self.timestamp
    }
}

/// A coordinator's request for the value of a key.
#[derive(Clone, Debug, PartialEq, Eq)]
pub struct CorrelatingGetValueByKeyRequest {
    pub key: String,
    pub correlation_id: u128,
}

/// A replica's answer to a get: the value and its timestamp, or `""` and 0.
#[derive(Clone, Debug, PartialEq, Eq)]
pub struct GetValueByKeyResponse {
    pub key: String,
    pub value: String,
    pub correlation_id: u128,
    pub timestamp: u64,
}

/// A coordinator's request to store a value under a key at a timestamp.
#[derive(Clone, Debug, PartialEq, Eq)]
pub struct VersionedPutKeyValueRequest {
    pub key: String,
    pub value: String,
    pub timestamp: u64,
    pub correlation_id: u128,
}

/// A replica's answer to a put: whether the value is now the stored one.
#[derive(Clone, Copy, Debug, PartialEq, Eq)]
pub struct PutKeyValueResponse {
    pub correlation_id: u128,
    pub was_put: bool,
}

/// The value and timestamp that a get reports for `key`: the stored pair, or the empty
/// value at timestamp 0.
pub open spec fn reported(stored: Map<Seq<char>, (Seq<char>, u64)>, key: Seq<char>) -> (Seq<char>, u64) {
    if stored.contains_key(key) {
        stored[key]
    } else {
        (Seq::<char>::empty(), 0)
    }
}

/// Last write wins: a put is taken unless the key holds a value of a later timestamp.
pub open spec fn put_wins(stored: Map<Seq<char>, (Seq<char>, u64)>, key: Seq<char>, timestamp: u64) -> bool {
    !stored.contains_key(key) || stored[key].1 <= timestamp
}

/// The store of one replica of the quorum key-value example.
pub struct KeyValueStore {
    pub(crate) storage: ValueMap,
}

impl KeyValueStore {
    /// What the store holds, key by key.
    pub open(crate) spec fn spec_stored(&self) -> Map<Seq<char>, (Seq<char>, u64)> {
        stored_values(self.storage)
    }

    pub fn new() -> (r: KeyValueStore)
        ensures
            r.spec_stored().is_empty(),
    {
        KeyValueStore { storage: new_value_map() }
    }

    /// Stores a pair as it stands, whatever the key held before.
    pub fn set_initial_state(&mut self, key_value: (String, Value))
        ensures
            final(self).spec_stored() == old(self).spec_stored().insert(
                key_value.0@,
                (key_value.1.spec_value(), key_value.1.spec_timestamp()),
            ),
    {
        let (key, value) = key_value;
        insert_value(&mut self.storage, key, value.value, value.timestamp);
    }

    /// The stored value and timestamp of `key`, if any.
    pub fn get(&self, key: &String) -> (r: Option<Value>)
        ensures
            r is Some <==> self.spec_stored().contains_key(key@),
            r is Some ==> r->0.spec_value() == self.spec_stored()[key@].0
                && r->0.spec_timestamp() == self.spec_stored()[key@].1,
    {
        match get_value(&self.storage, key) {
            None => None,
            Some(pair) => Some(Value { value: pair.0, timestamp: pair.1 }),
        }
    }

    /// The answer to a get of `key`: the stored value and timestamp, or `""` and 0.
    pub fn value_response(&self, key: String, correlation_id: u128) -> (r: GetValueByKeyResponse)
        ensures
            r.key@ == key@,
            r.correlation_id == correlation_id,
            r.value@ == reported(self.spec_stored(), key@).0,
            r.timestamp == reported(self.spec_stored(), key@).1,
    {
        match get_value(&self.storage, &key) {
            None => {
                let empty = String::new();
                GetValueByKeyResponse { key, value: empty, correlation_id, timestamp: 0 }
            },
            Some(pair) => GetValueByKeyResponse {
                key,
                value: pair.0,
                correlation_id,
                timestamp: pair.1,
            },
        }
    }

    /// Handles a get on a replica: a request without the sender's host and port is
    /// refused; otherwise the answer and the address to send it to.
    pub fn acknowledge_get(
        &self,
        host: Option<IpAddress>,
        port: Option<u16>,
        request: CorrelatingGetValueByKeyRequest,
    ) -> (r: Result<(HostAndPort, GetValueByKeyResponse), ReplicaError>)
        ensures
            r is Err <==> host is None || port is None,
            r is Err ==> r->Err_0 == ReplicaError::MissingFootprint,
            r is Ok ==> {
                let (to, resp) = r->Ok_0;
                &&& to == (HostAndPort { ip: host->0, port: port->0 })
                &&& resp.key@ == request.key@
                &&& resp.correlation_id == request.correlation_id
                &&& resp.value@ == reported(self.spec_stored(), request.key@).0
                &&& resp.timestamp == reported(self.spec_stored(), request.key@).1
            },
    {
        let to = match HostAndPort::from_referral(host, port) {
            Ok(to) => to,
            Err(e) => return Err(e),
        };
        let response = self.value_response(request.key, request.correlation_id);
        Ok((to, response))
    }

    /// Stores a versioned value, last write winning: the put is taken unless the key
    /// holds a value of a later timestamp. The answer says whether it was taken.
    pub fn put_value(&mut self, request: VersionedPutKeyValueRequest) -> (r: PutKeyValueResponse)
        ensures
            r.correlation_id == request.correlation_id,
            r.was_put == put_wins(old(self).spec_stored(), request.key@, request.timestamp),
            final(self).spec_stored() == if r.was_put {
                old(self).spec_stored().insert(request.key@, (request.value@, request.timestamp))
            } else {
                old(self).spec_stored()
            },
    {
        let wins = match get_value(&self.storage, &request.key) {
            None => true,
            Some(pair) => pair.1 <= request.timestamp,
        };
        if wins {
            insert_value(&mut self.storage, request.key, request.value, request.timestamp);
        }
        PutKeyValueResponse { correlation_id: request.correlation_id, was_put: wins }
    }

    /// Handles a put on a replica: a request without the sender's host and port is
    /// refused and stores nothing; otherwise the value is stored, last write winning,
    /// and the answer goes back to the sender.
    pub fn acknowledge_put(
        &mut self,
        host: Option<IpAddress>,
        port: Option<u16>,
        request: VersionedPutKeyValueRequest,
    ) -> (r: Result<(HostAndPort, PutKeyValueResponse), ReplicaError>)
        ensures
            r is Err <==> host is None || port is None,
            r is Err ==> r->Err_0 == ReplicaError::MissingFootprint && final(self).spec_stored()
                == old(self).spec_stored(),
            r is Ok ==> {
                let (to, resp) = r->Ok_0;
                &&& to == (HostAndPort { ip: host->0, port: port->0 })
                &&& resp.correlation_id == request.correlation_id
                &&& resp.was_put == put_wins(old(self).spec_stored(), request.key@, request.timestamp)
                &&& final(self).spec_stored() == if resp.was_put {
                    old(self).spec_stored().insert(request.key@, (request.value@, request.timestamp))
                } else {
                    old(self).spec_stored()
                }
            },
    {
        let to = match HostAndPort::from_referral(host, port) {
            Ok(to) => to,
            Err(e) => return Err(e),
        };
        let response = self.put_value(request);
        Ok((to, response))
    }
}

/// Handles a replica's answer to a get on the coordinator: a response without the
/// sender's host and port is refused; otherwise it resolves the pending slot of its
/// correlation id and sender, and says whether there was one.
pub fn finish_get(
    pending: &mut PendingResponses,
    host: Option<IpAddress>,
    port: Option<u16>,
    response: &GetValueByKeyResponse,
) -> (r: Result<bool, ReplicaError>)
    requires
        old(pending).wf(),
    ensures
        final(pending).wf(),
        r is Err <==> host is None || port is None,
        r is Err ==> r->Err_0 == ReplicaError::MissingFootprint && final(pending)@ == old(pending)@,
        r is Ok ==> {
            let key = (response.correlation_id, HostAndPort { ip: host->0, port: port->0 });
            &&& r->Ok_0 == old(pending)@.contains(key)
            &&& final(pending)@ == old(pending)@.remove(key)
        },
{
    let from = match HostAndPort::from_referral(host, port) {
        Ok(from) => from,
        Err(e) => return Err(e),
    };
    Ok(pending.register_response(response.correlation_id, from))
}

/// Handles a replica's answer to a put on the coordinator, as `finish_get` does.
pub fn finish_put(
    pending: &mut PendingResponses,
    host: Option<IpAddress>,
    port: Option<u16>,
    response: &PutKeyValueResponse,
) -> (r: Result<bool, ReplicaError>)
    requires
        old(pending).wf(),
    ensures
        final(pending).wf(),
        r is Err <==> host is None || port is None,
        r is Err ==> r->Err_0 == ReplicaError::MissingFootprint && final(pending)@ == old(pending)@,
        r is Ok ==> {
            let key = (response.correlation_id, HostAndPort { ip: host->0, port: port->0 });
            &&& r->Ok_0 == old(pending)@.contains(key)
            &&& final(pending)@ == old(pending)@.remove(key)
        },
{
    let from = match HostAndPort::from_referral(host, port) {
        Ok(from) => from,
        Err(e) => return Err(e),
    };
    Ok(pending.register_response(response.correlation_id, from))
}

/// The position of the answer with the highest timestamp; the first such on a tie.
pub open spec fn is_latest(responses: Seq<GetValueByKeyResponse>, i: int) -> bool {
    &&& 0 <= i < responses.len()
    &&& forall|j: int| 0 <= j < responses.len() ==> #[trigger] responses[j].timestamp
        <= responses[i].timestamp
    &&& forall|j: int| 0 <= j < i ==> #[trigger] responses[j].timestamp < responses[i].timestamp
}

/// The coordinator's choice among a quorum of answers to a get: the answer with the
/// highest timestamp, the first one on a tie; none when there are no answers.
pub fn latest_response(responses: &Vec<GetValueByKeyResponse>) -> (r: Option<usize>)
    ensures
        r is None <==> responses@.len() == 0,
        r is Some ==> is_latest(responses@, r->0 as int),
{
    if responses.len() == 0 {
        return None;
    }
    let mut best: usize = 0;
    let mut i: usize = 1;
    while i < responses.len()
        invariant
            1 <= i <= responses@.len(),
            best < i,
            forall|j: int| 0 <= j < i ==> #[trigger] responses@[j].timestamp
                <= responses@[best as int].timestamp,
            forall|j: int| 0 <= j < best ==> #[trigger] responses@[j].timestamp
                < responses@[best as int].timestamp,
        decreases responses@.len() - i,
    {
        if responses[i].timestamp > responses[best].timestamp {
            best = i;
        }
        i = i + 1;
    }
    Some(best)
}

/// The highest of the timestamps, 0 for none.
pub open spec fn max_timestamp(seen: Seq<u64>) -> u64
    decreases seen.len(),
{
    if seen.len() == 0 {
        0
    } else {
        let m = max_timestamp(seen.drop_last());
        if seen.last() > m {
            seen.last()
        } else {
            m
        }
    }
}

/// The timestamp a coordinator gives a new put: one past the highest it has seen.
pub fn next_timestamp(seen: &Vec<u64>) -> (r: u64)
    requires
        max_timestamp(seen@) < u64::MAX,
    ensures
        r == max_timestamp(seen@) + 1,
{
    let mut m: u64 = 0;
    let mut i: usize = 0;
    while i < seen.len()
        invariant
            i <= seen@.len(),
            m == max_timestamp(seen@.subrange(0, i as int)),
        decreases seen@.len() - i,
    {
        assert(seen@.subrange(0, i + 1).drop_last() =~= seen@.subrange(0, i as int));
        if seen[i] > m {
            m = seen[i];
        }
        i = i + 1;
    }
    assert(seen@.subrange(0, i as int) =~= seen@);
    m + 1
}

} // verus!
