//! The resolution orchestrator: the state machine that drives each "find
//! and connect to user X" request through lookup, dial and completion.
//!
//! The orchestrator holds the pending-request registry and makes every
//! decision of the control loop: which commands start a lookup, which events
//! publish the local address, resolve a lookup, start or join a dial, and
//! which terminal results go back to callers. Each step is specified by a
//! transition predicate relating the state before and after to the actions
//! and responses produced, so that properties of whole runs can be stated
//! and proved over chains of these predicates.

use vstd::prelude::*;
use crate::addr::{NetAddress, is_private_addr, is_private_network, spec_encode_addr,
    spec_decode_addr, encode_addr, decode_addr};
use crate::command::{Command, CommandResp};
use crate::event::{NetworkEvent, NetworkAction, Effects};
use crate::registry::PendingRequests;

verus! {

/// The orchestrator: the local user's id (published under this key) and the
/// registry of in-flight lookups and dials.
pub struct Orchestrator {
    pub own_uid: String,
    pub pending: PendingRequests,
}

/// The responses are exactly one terminal result per waiter, in order, each
/// carrying the waiter's user id and the given outcome flags.
pub open spec fn responses_for(
    rs: Seq<CommandResp>,
    ws: Seq<Seq<char>>,
    found: bool,
    connected: bool,
) -> bool {
    &&& rs.len() == ws.len()
    &&& forall|k: int|
        0 <= k < rs.len() ==> (#[trigger] rs[k] matches CommandResp::GetUserResp {
            uid,
            found: f,
            connected: c,
        } && uid@ == ws[k] && f == found && c == connected)
}

/// One resolution command for `uid`: the request joins the lookup table, and
/// a lookup is issued exactly when none was in flight for `uid`.
pub open spec fn get_user_step(
    pre: Orchestrator,
    post: Orchestrator,
    uid: Seq<char>,
    actions: Seq<NetworkAction>,
) -> bool {
    &&& post.own_uid == pre.own_uid
    &&& post.lookup_waiters_of(uid) == pre.lookup_waiters_of(uid).push(uid)
    &&& forall|u: Seq<char>| u != uid ==> post.lookup_waiters_of(u) == pre.lookup_waiters_of(u)
    &&& post.pending.dials@ == pre.pending.dials@
    &&& if pre.lookup_pending(uid) {
        actions.len() == 0
    } else {
        actions.len() == 1 && (actions[0] matches NetworkAction::IssueLookup { key } && key@
            == uid)
    }
}

/// The lookup for `uid` failed (or its record could not be decoded): its
/// entry is gone and every waiter receives a not-found result.
pub open spec fn lookup_failure_step(
    pre: Orchestrator,
    post: Orchestrator,
    uid: Seq<char>,
    actions: Seq<NetworkAction>,
    responses: Seq<CommandResp>,
) -> bool {
    &&& post.own_uid == pre.own_uid
    &&& post.lookup_waiters_of(uid) == Seq::<Seq<char>>::empty()
    &&& forall|u: Seq<char>| u != uid ==> post.lookup_waiters_of(u) == pre.lookup_waiters_of(u)
    &&& post.pending.dials@ == pre.pending.dials@
    &&& actions.len() == 0
    &&& responses_for(responses, pre.lookup_waiters_of(uid), false, false)
}

/// The lookup for `uid` produced `addr`: its waiters move to the dial table
/// under `addr`, and a dial is issued exactly when the lookup had waiters
/// and no dial for `addr` was already in flight.
pub open spec fn lookup_success_step(
    pre: Orchestrator,
    post: Orchestrator,
    uid: Seq<char>,
    addr: NetAddress,
    actions: Seq<NetworkAction>,
    responses: Seq<CommandResp>,
) -> bool {
    &&& post.own_uid == pre.own_uid
    &&& post.lookup_waiters_of(uid) == Seq::<Seq<char>>::empty()
    &&& forall|u: Seq<char>| u != uid ==> post.lookup_waiters_of(u) == pre.lookup_waiters_of(u)
    &&& post.dial_waiters_of(addr) == pre.dial_waiters_of(addr) + pre.lookup_waiters_of(uid)
    &&& forall|a: NetAddress| a != addr ==> post.dial_waiters_of(a) == pre.dial_waiters_of(a)
    &&& responses.len() == 0
    &&& if pre.lookup_pending(uid) && !pre.dial_pending(addr) {
        actions.len() == 1 && (actions[0] matches NetworkAction::Dial { address } && address
            == addr)
    } else {
        actions.len() == 0
    }
}

/// A connection to `addr` was established with the local side as dialer: the
/// dial entry is gone and every waiter receives a full-success result.
pub open spec fn dial_success_step(
    pre: Orchestrator,
    post: Orchestrator,
    addr: NetAddress,
    actions: Seq<NetworkAction>,
    responses: Seq<CommandResp>,
) -> bool {
    &&& post.own_uid == pre.own_uid
    &&& post.pending.lookups@ == pre.pending.lookups@
    &&& post.dial_waiters_of(addr) == Seq::<Seq<char>>::empty()
    &&& forall|a: NetAddress| a != addr ==> post.dial_waiters_of(a) == pre.dial_waiters_of(a)
    &&& actions.len() == 0
    &&& responses_for(responses, pre.dial_waiters_of(addr), true, true)
}

/// What one network event does: the full case split of the event dispatcher.
pub open spec fn event_step(
    pre: Orchestrator,
    post: Orchestrator,
    ev: NetworkEvent,
    actions: Seq<NetworkAction>,
    responses: Seq<CommandResp>,
) -> bool {
    match ev {
        NetworkEvent::NewListenAddr { address } => {
            &&& post == pre
            &&& responses.len() == 0
            &&& if is_private_addr(address) {
                actions.len() == 0
            } else {
                actions.len() == 1 && (actions[0] matches NetworkAction::PublishRecord {
                    key,
                    value,
                } && key@ == pre.own_uid@ && value@ == spec_encode_addr(address))
            }
        },
        NetworkEvent::PeerDiscovered { peer, address } => {
            &&& post == pre
            &&& responses.len() == 0
            &&& actions.len() == 1
            &&& (actions[0] matches NetworkAction::AddAddress { peer: p, address: a } && p@
                == peer@ && a == address)
        },
        NetworkEvent::LookupRecordFound { uid, value } => {
            match spec_decode_addr(value@) {
                Some(address) => lookup_success_step(pre, post, uid@, address, actions, responses),
                None => lookup_failure_step(pre, post, uid@, actions, responses),
            }
        },
        NetworkEvent::LookupFailed { uid } => lookup_failure_step(
            pre,
            post,
            uid@,
            actions,
            responses,
        ),
        NetworkEvent::ConnectionEstablished { address, dialer } => {
            if dialer {
                dial_success_step(pre, post, address, actions, responses)
            } else {
                &&& post == pre
                &&& actions.len() == 0
                &&& responses.len() == 0
            }
        },
        NetworkEvent::Other => {
            &&& post == pre
            &&& actions.len() == 0
            &&& responses.len() == 0
        },
    }
}

/// One terminal result per waiter, with the given outcome flags.
fn make_responses(ws: Vec<String>, found: bool, connected: bool) -> (rs: Vec<CommandResp>)
    ensures
        responses_for(rs@, ws.deep_view(), found, connected),
{
    let mut rs: Vec<CommandResp> = Vec::new();
    let mut k: usize = 0;
    while k < ws.len()
        invariant
            k <= ws@.len(),
            responses_for(rs@, ws.deep_view().take(k as int), found, connected),
        decreases ws@.len() - k,
    {
        let w = ws[k].clone();
        proof {
            assert(w@ == ws.deep_view()[k as int]);
            assert(ws.deep_view().take(k + 1 as int) =~= ws.deep_view().take(k as int).push(
                ws.deep_view()[k as int],
            ));
        }
        rs.push(CommandResp::GetUserResp { uid: w, found, connected });
        k = k + 1;
    }
    proof {
        assert(ws.deep_view().take(ws@.len() as int) =~= ws.deep_view());
    }
    rs
}

impl Orchestrator {
    /// Well-formedness: the registry keeps one entry per key, each holding
    /// at least one waiter.
    pub open spec fn wf(self) -> bool {
        self.pending.wf()
    }

    /// The requests waiting on the lookup for `uid`.
    pub open spec fn lookup_waiters_of(self, uid: Seq<char>) -> Seq<Seq<char>> {
        self.pending.lookup_waiters_of(uid)
    }

    /// The requests waiting on the dial for `addr`.
    pub open spec fn dial_waiters_of(self, addr: NetAddress) -> Seq<Seq<char>> {
        self.pending.dial_waiters_of(addr)
    }

    /// Whether a lookup for `uid` is in flight.
    pub open spec fn lookup_pending(self, uid: Seq<char>) -> bool {
        self.pending.lookup_pending(uid)
    }

    /// Whether a dial for `addr` is in flight.
    pub open spec fn dial_pending(self, addr: NetAddress) -> bool {
        self.pending.dial_pending(addr)
    }

    /// A fresh orchestrator for the local user `own_uid`: nothing pending.
    pub fn new(own_uid: String) -> (r: Orchestrator)
        ensures
            r.wf(),
            r.own_uid@ == own_uid@,
            forall|u: Seq<char>| r.lookup_waiters_of(u) == Seq::<Seq<char>>::empty(),
            forall|a: NetAddress| r.dial_waiters_of(a) == Seq::<Seq<char>>::empty(),
    {
        Orchestrator { own_uid, pending: PendingRequests::new() }
    }

    /// Accepts one resolution command.
    ///
    /// The request is recorded as a waiter on its user id's lookup; a lookup
    /// is issued to the distributed lookup layer exactly when none was
    /// already in flight for that id, so concurrent requests for one id
    /// share a single lookup.
    pub fn handle_command(&mut self, cmd: Command) -> (actions: Vec<NetworkAction>)
        requires
            old(self).wf(),
        ensures
            final(self).wf(),
            (match cmd {
                Command::GetUser { uid } => get_user_step(
                    *old(self),
                    *final(self),
                    uid@,
                    actions@,
                ),
            }),
    {
        match cmd {
            Command::GetUser { uid } => {
                let fresh = self.pending.register_lookup(&uid);
                let mut actions: Vec<NetworkAction> = Vec::new();
                if fresh {
                    actions.push(NetworkAction::IssueLookup { key: uid });
                }
                actions
            },
        }
    }

    /// Consumes one network event and produces the operations and terminal
    /// results that follow from it, as `event_step` describes: publish the
    /// local address when it is public, feed discovered peers to the
    /// routing table, resolve lookups (decoding failures count as lookup
    /// failures), move resolved requests into a shared dial, and complete
    /// every waiter when the dialed connection is established.
    pub fn handle_event(&mut self, event: NetworkEvent) -> (out: Effects)
        requires
            old(self).wf(),
        ensures
            final(self).wf(),
            event_step(*old(self), *final(self), event, out.actions@, out.responses@),
    {
        match event {
            NetworkEvent::NewListenAddr { address } => {
                let mut actions: Vec<NetworkAction> = Vec::new();
                if !is_private_network(&address) {
                    let value = encode_addr(&address);
                    let key = self.own_uid.clone();
                    actions.push(NetworkAction::PublishRecord { key, value });
                }
                Effects { actions, responses: Vec::new() }
            },
            NetworkEvent::PeerDiscovered { peer, address } => {
                let mut actions: Vec<NetworkAction> = Vec::new();
                actions.push(NetworkAction::AddAddress { peer, address });
                Effects { actions, responses: Vec::new() }
            },
            NetworkEvent::LookupRecordFound { uid, value } => {
                match decode_addr(&value) {
                    Some(address) => self.complete_lookup_success(uid, address),
                    None => self.complete_lookup_failure(uid),
                }
            },
            NetworkEvent::LookupFailed { uid } => self.complete_lookup_failure(uid),
            NetworkEvent::ConnectionEstablished { address, dialer } => {
                if dialer {
                    self.complete_dial_success(address)
                } else {
                    Effects { actions: Vec::new(), responses: Vec::new() }
                }
            },
            NetworkEvent::Other => Effects { actions: Vec::new(), responses: Vec::new() },
        }
    }

    /// Resolves the lookup for `uid` as failed and answers every waiter
    /// with a not-found result.
    fn complete_lookup_failure(&mut self, uid: String) -> (out: Effects)
        requires
            old(self).wf(),
        ensures
            final(self).wf(),
            lookup_failure_step(*old(self), *final(self), uid@, out.actions@, out.responses@),
    {
        let ws = self.pending.resolve_lookup(&uid);
        let responses = make_responses(ws, false, false);
        Effects { actions: Vec::new(), responses }
    }

    /// Resolves the lookup for `uid` with `address`: every waiter moves to
    /// the dial table under that address, and a dial is issued unless one is
    /// already in flight there.
    fn complete_lookup_success(&mut self, uid: String, address: NetAddress) -> (out: Effects)
        requires
            old(self).wf(),
        ensures
            final(self).wf(),
            lookup_success_step(
                *old(self),
                *final(self),
                uid@,
                address,
                out.actions@,
                out.responses@,
            ),
    {
        let ws = self.pending.resolve_lookup(&uid);
        let ghost mid = *self;
        proof {
            assert(mid.pending.dial_waiters_of(address) + ws.deep_view().take(0) =~= mid
                .pending
                .dial_waiters_of(address));
        }
        let mut actions: Vec<NetworkAction> = Vec::new();
        let mut k: usize = 0;
        while k < ws.len()
            invariant
                self.pending.wf(),
                k <= ws@.len(),
                self.own_uid == mid.own_uid,
                self.pending.lookups@ == mid.pending.lookups@,
                self.pending.dial_waiters_of(address) == mid.pending.dial_waiters_of(address)
                    + ws.deep_view().take(k as int),
                forall|a: NetAddress| a != address ==> self.pending.dial_waiters_of(a) == mid
                    .pending
                    .dial_waiters_of(a),
                if k > 0 && mid.pending.dial_waiters_of(address).len() == 0 {
                    actions@.len() == 1 && (actions@[0] matches NetworkAction::Dial {
                        address: ad,
                    } && ad == address)
                } else {
                    actions@.len() == 0
                },
            decreases ws@.len() - k,
        {
            let w = ws[k].clone();
            proof {
                assert(w@ == ws.deep_view()[k as int]);
                assert(mid.pending.dial_waiters_of(address) + ws.deep_view().take(k + 1 as int)
                    =~= (mid.pending.dial_waiters_of(address) + ws.deep_view().take(
                    k as int,
                )).push(ws.deep_view()[k as int]));
            }
            let fresh = self.pending.register_dial(&address, w);
            if fresh {
                actions.push(NetworkAction::Dial { address });
            }
            k = k + 1;
        }
        proof {
            assert(ws.deep_view().take(ws@.len() as int) =~= ws.deep_view());
            assert forall|a: NetAddress| a != address implies self.pending.dial_waiters_of(a)
                == old(self).pending.dial_waiters_of(a) by {
                assert(self.pending.dial_waiters_of(a) == mid.pending.dial_waiters_of(a));
            }
        }
        Effects { actions, responses: Vec::new() }
    }

    /// Resolves the dial for `address` and answers every waiter with a
    /// full-success result.
    fn complete_dial_success(&mut self, address: NetAddress) -> (out: Effects)
        requires
            old(self).wf(),
        ensures
            final(self).wf(),
            dial_success_step(*old(self), *final(self), address, out.actions@, out.responses@),
    {
        let ws = self.pending.resolve_dial(&address);
        let responses = make_responses(ws, true, true);
        Effects { actions: Vec::new(), responses }
    }
}

} // verus!
