//! The command surface of the service: what a caller submits and what comes
//! back on the response channel.

use vstd::prelude::*;

verus! {

/// A resolution request submitted by a caller: find the user's current
/// address through the distributed lookup layer and connect to it.
#[derive(Debug)]
pub enum Command {
    GetUser { uid: String },
}

/// The terminal outcome of one accepted resolution request.
///
/// `found` is false when the lookup produced no usable address; `found`
/// without `connected` means the lookup succeeded but no connection was
/// confirmed; both flags set is full success.
#[derive(Debug, PartialEq)]
pub enum CommandResp {
    GetUserResp { uid: String, found: bool, connected: bool },
}

/// The request kinds of the caller-facing protocol.
#[derive(Debug)]
pub enum Commands {
    GetUser,
    Login,
}

/// A peer's answer to a connection request: accepted or refused.
#[derive(Debug)]
pub enum PearRes {
    Connect(bool),
}

} // verus!
