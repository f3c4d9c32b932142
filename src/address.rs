use vstd::prelude::*;

use crate::errors::ReplicaError;

verus! {

/// An IP address, held as the integer that its octets spell.
#[derive(Clone, Copy, Debug, PartialEq, Eq, Structural, Hash)]
pub enum IpAddress {
    V4(u32),
    V6(u128),
}

/// The address of a replica: an IP address and a port.
#[derive(Clone, Copy, Debug, PartialEq, Eq, Structural, Hash)]
pub struct HostAndPort {
    pub ip: IpAddress,
    pub port: u16,
}

impl HostAndPort {
    pub fn new(ip: IpAddress, port: u16) -> (r: HostAndPort)
        ensures
            r.ip == ip,
            r.port == port,
    {
        HostAndPort { ip, port }
    }

    /// The sender's address from a request's referral headers; a request that lacks
    /// either header has no footprint.
    pub fn from_referral(host: Option<IpAddress>, port: Option<u16>) -> (r: Result<
        HostAndPort,
        ReplicaError,
    >)
        ensures
            r is Ok <==> host is Some && port is Some,
            r is Ok ==> r->Ok_0 == (HostAndPort { ip: host->0, port: port->0 }),
            r is Err ==> r->Err_0 == ReplicaError::MissingFootprint,
    {
        match (host, port) {
            (Some(ip), Some(port)) => Ok(HostAndPort { ip, port }),
            _ => Err(ReplicaError::MissingFootprint),
        }
    }
}

} // verus!
