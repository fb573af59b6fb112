//! The notifications that arrive from the network stack and the operations
//! the orchestrator asks it to perform.
//!
//! The event loop that owns the network stack turns each of its
//! notifications into a `NetworkEvent`, hands it to the orchestrator, and
//! carries every returned `NetworkAction` back out. Nothing here performs
//! I/O; both sides are plain values.

use vstd::prelude::*;
use crate::addr::NetAddress;
use crate::command::CommandResp;

verus! {

/// A notification from the network stack.
#[derive(Debug)]
pub enum NetworkEvent {
    /// A local listening address was acquired.
    NewListenAddr { address: NetAddress },
    /// Local broadcast discovery found a neighbouring peer.
    PeerDiscovered { peer: Vec<u8>, address: NetAddress },
    /// The lookup for `uid` completed with a stored record value.
    LookupRecordFound { uid: String, value: Vec<u8> },
    /// The lookup for `uid` failed or found no record.
    LookupFailed { uid: String },
    /// A connection is established; `dialer` says whether the local side
    /// initiated it.
    ConnectionEstablished { address: NetAddress, dialer: bool },
    /// Any other notification; consumed without a state change.
    Other,
}

/// An operation for the network stack to perform.
#[derive(Debug, PartialEq)]
pub enum NetworkAction {
    /// Store `value` under `key` in the distributed lookup layer.
    PublishRecord { key: String, value: Vec<u8> },
    /// Add a discovered peer to the lookup layer's routing table.
    AddAddress { peer: Vec<u8>, address: NetAddress },
    /// Start a lookup for the record stored under `key`.
    IssueLookup { key: String },
    /// Open a connection to `address`.
    Dial { address: NetAddress },
}

/// Everything one step of the orchestrator produces: operations for the
/// network stack and terminal results for callers.
#[derive(Debug)]
pub struct Effects {
    pub actions: Vec<NetworkAction>,
    pub responses: Vec<CommandResp>,
}

} // verus!
