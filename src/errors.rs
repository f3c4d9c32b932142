use vstd::prelude::*;

verus! {

/// The errors that a replica reports to its callers.
#[derive(Clone, Copy, Debug, PartialEq, Eq, Structural)]
pub enum ReplicaError {
    /// A connection or a send failed.
    TransportError,
    /// No response, or no quorum of responses, came in time.
    Timeout,
    /// A client write reached a replica that is not the leader.
    NotLeader,
    /// A request came without the sender's host and port.
    MissingFootprint,
    /// The update queue no longer takes work.
    ShutdownInProgress,
    /// The update queue holds as many tasks as it may; the submission can be retried.
    QueueFull,
}

impl ReplicaError {
    /// A short description of the error.
    pub fn message(&self) -> (r: &'static str) {
        match self {
            ReplicaError::TransportError => "transport error",
            ReplicaError::Timeout => "timed out waiting for a quorum",
            ReplicaError::NotLeader => "not the leader",
            ReplicaError::MissingFootprint => "missing originating host/port",
            ReplicaError::ShutdownInProgress => "shutdown in progress",
            ReplicaError::QueueFull => "update queue full",
        }
    }
}

} // verus!
