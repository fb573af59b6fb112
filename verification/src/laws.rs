//! The orchestrator's guarantees across whole runs, proved over chains of
//! its transition predicates: deduplication of lookups and dials, one
//! terminal result per waiting request, and fresh operations after an entry
//! is cleaned up.

use vstd::prelude::*;
use crate::addr::NetAddress;
use crate::command::CommandResp;
use crate::event::NetworkAction;
use crate::orchestrator::{Orchestrator, get_user_step, lookup_success_step, lookup_failure_step,
    dial_success_step, responses_for};

verus! {

/// How many lookups for `uid` a batch of actions issues.
pub open spec fn lookups_issued(actions: Seq<NetworkAction>, uid: Seq<char>) -> nat
    decreases actions.len(),
{
    if actions.len() == 0 {
        0
    } else {
        lookups_issued(actions.drop_last(), uid) + (if actions.last()
            matches NetworkAction::IssueLookup { key } && key@ == uid {
            1nat
        } else {
            0nat
        })
    }
}

/// How many lookups for `uid` a run of action batches issues in all.
pub open spec fn total_lookups_issued(actionss: Seq<Seq<NetworkAction>>, uid: Seq<char>) -> nat
    decreases actionss.len(),
{
    if actionss.len() == 0 {
        0
    } else {
        lookups_issued(actionss.first(), uid) + total_lookups_issued(actionss.drop_first(), uid)
    }
}

/// How many dials to `addr` a batch of actions issues.
pub open spec fn dials_issued(actions: Seq<NetworkAction>, addr: NetAddress) -> nat
    decreases actions.len(),
{
    if actions.len() == 0 {
        0
    } else {
        dials_issued(actions.drop_last(), addr) + (if actions.last() matches NetworkAction::Dial {
            address,
        } && address == addr {
            1nat
        } else {
            0nat
        })
    }
}

/// How many dials to `addr` a run of action batches issues in all.
pub open spec fn total_dials_issued(actionss: Seq<Seq<NetworkAction>>, addr: NetAddress) -> nat
    decreases actionss.len(),
{
    if actionss.len() == 0 {
        0
    } else {
        dials_issued(actionss.first(), addr) + total_dials_issued(actionss.drop_first(), addr)
    }
}

/// A run of resolution commands for the same user id: `states` are the
/// orchestrator states it passes through, `actionss` the actions of each
/// step.
pub open spec fn get_user_chain(
    states: Seq<Orchestrator>,
    actionss: Seq<Seq<NetworkAction>>,
    uid: Seq<char>,
) -> bool {
    &&& states.len() == actionss.len() + 1
    &&& forall|k: int|
        0 <= k < actionss.len() ==> get_user_step(states[k], states[k + 1], uid, actionss[k])
}

/// A run of lookup completions (for possibly different user ids) that all
/// resolve to the same address.
pub open spec fn lookup_success_chain(
    states: Seq<Orchestrator>,
    uids: Seq<Seq<char>>,
    addr: NetAddress,
    actionss: Seq<Seq<NetworkAction>>,
    responsess: Seq<Seq<CommandResp>>,
) -> bool {
    &&& states.len() == actionss.len() + 1
    &&& uids.len() == actionss.len()
    &&& responsess.len() == actionss.len()
    &&& forall|k: int|
        0 <= k < actionss.len() ==> lookup_success_step(
            states[k],
            states[k + 1],
            uids[k],
            addr,
            actionss[k],
            responsess[k],
        )
}

/// While a lookup for `uid` is in flight, further commands for `uid` issue
/// no lookup at all, and the lookup stays in flight.
pub proof fn lemma_pending_chain_no_lookup(
    states: Seq<Orchestrator>,
    actionss: Seq<Seq<NetworkAction>>,
    uid: Seq<char>,
)
    requires
        get_user_chain(states, actionss, uid),
        states[0].lookup_pending(uid),
    ensures
        total_lookups_issued(actionss, uid) == 0,
        states[states.len() - 1].lookup_pending(uid),
    decreases actionss.len(),
{
    if actionss.len() > 0 {
        assert(get_user_step(states[0], states[1], uid, actionss[0]));
        assert(actionss[0].len() == 0);
        assert(lookups_issued(actionss.first(), uid) == 0);
        assert(states[1].lookup_pending(uid));
        let st = states.drop_first();
        let at = actionss.drop_first();
        assert forall|k: int| 0 <= k < at.len() implies get_user_step(
            st[k],
            st[k + 1],
            uid,
            at[k],
        ) by {
            assert(st[k] == states[k + 1]);
            assert(st[k + 1] == states[k + 2]);
            assert(at[k] == actionss[k + 1]);
            assert(get_user_step(states[k + 1], states[k + 2], uid, actionss[k + 1]));
        }
        lemma_pending_chain_no_lookup(st, at, uid);
        assert(st[st.len() - 1] == states[states.len() - 1]);
    }
}

/// Deduplication of lookups: however many resolution commands arrive for
/// one user id while none of them has been resolved, at most one lookup is
/// issued to the distributed lookup layer.
pub proof fn lemma_lookup_dedup(
    states: Seq<Orchestrator>,
    actionss: Seq<Seq<NetworkAction>>,
    uid: Seq<char>,
)
    requires
        get_user_chain(states, actionss, uid),
    ensures
        total_lookups_issued(actionss, uid) <= 1,
{
    if actionss.len() == 0 {
    } else if states[0].lookup_pending(uid) {
        lemma_pending_chain_no_lookup(states, actionss, uid);
    } else {
        assert(get_user_step(states[0], states[1], uid, actionss[0]));
        assert(actionss[0].len() == 1);
        assert(actionss.first().drop_last().len() == 0);
        assert(lookups_issued(actionss.first().drop_last(), uid) == 0);
        assert(actionss.first().last() == actionss[0][0]);
        assert(lookups_issued(actionss.first(), uid) == 1);
        assert(states[1].lookup_pending(uid));
        let st = states.drop_first();
        let at = actionss.drop_first();
        assert forall|k: int| 0 <= k < at.len() implies get_user_step(
            st[k],
            st[k + 1],
            uid,
            at[k],
        ) by {
            assert(st[k] == states[k + 1]);
            assert(st[k + 1] == states[k + 2]);
            assert(at[k] == actionss[k + 1]);
            assert(get_user_step(states[k + 1], states[k + 2], uid, actionss[k + 1]));
        }
        lemma_pending_chain_no_lookup(st, at, uid);
    }
}

/// While a dial to `addr` is in flight, further lookup completions that
/// resolve to `addr` issue no dial at all, and the dial stays in flight.
pub proof fn lemma_pending_chain_no_dial(
    states: Seq<Orchestrator>,
    uids: Seq<Seq<char>>,
    addr: NetAddress,
    actionss: Seq<Seq<NetworkAction>>,
    responsess: Seq<Seq<CommandResp>>,
)
    requires
        lookup_success_chain(states, uids, addr, actionss, responsess),
        states[0].dial_pending(addr),
    ensures
        total_dials_issued(actionss, addr) == 0,
        states[states.len() - 1].dial_pending(addr),
    decreases actionss.len(),
{
    if actionss.len() > 0 {
        assert(lookup_success_step(states[0], states[1], uids[0], addr, actionss[0], responsess[0]));
        assert(actionss[0].len() == 0);
        assert(dials_issued(actionss.first(), addr) == 0);
        assert(states[1].dial_waiters_of(addr).len() >= states[0].dial_waiters_of(addr).len());
        let st = states.drop_first();
        let ut = uids.drop_first();
        let at = actionss.drop_first();
        let rt = responsess.drop_first();
        assert forall|k: int| 0 <= k < at.len() implies lookup_success_step(
            st[k],
            st[k + 1],
            ut[k],
            addr,
            at[k],
            rt[k],
        ) by {
            assert(st[k] == states[k + 1]);
            assert(st[k + 1] == states[k + 2]);
            assert(ut[k] == uids[k + 1]);
            assert(at[k] == actionss[k + 1]);
            assert(rt[k] == responsess[k + 1]);
            assert(lookup_success_step(
                states[k + 1],
                states[k + 2],
                uids[k + 1],
                addr,
                actionss[k + 1],
                responsess[k + 1],
            ));
        }
        lemma_pending_chain_no_dial(st, ut, addr, at, rt);
        assert(st[st.len() - 1] == states[states.len() - 1]);
    }
}

/// Deduplication of dials: however many lookups resolve to one address
/// while its dial has not completed, at most one dial is issued to the
/// network stack for that address.
pub proof fn lemma_dial_dedup(
    states: Seq<Orchestrator>,
    uids: Seq<Seq<char>>,
    addr: NetAddress,
    actionss: Seq<Seq<NetworkAction>>,
    responsess: Seq<Seq<CommandResp>>,
)
    requires
        lookup_success_chain(states, uids, addr, actionss, responsess),
    ensures
        total_dials_issued(actionss, addr) <= 1,
    decreases actionss.len(),
{
    if actionss.len() == 0 {
    } else if states[0].dial_pending(addr) {
        lemma_pending_chain_no_dial(states, uids, addr, actionss, responsess);
    } else {
        assert(lookup_success_step(states[0], states[1], uids[0], addr, actionss[0], responsess[0]));
        let st = states.drop_first();
        let ut = uids.drop_first();
        let at = actionss.drop_first();
        let rt = responsess.drop_first();
        assert forall|k: int| 0 <= k < at.len() implies lookup_success_step(
            st[k],
            st[k + 1],
            ut[k],
            addr,
            at[k],
            rt[k],
        ) by {
            assert(st[k] == states[k + 1]);
            assert(st[k + 1] == states[k + 2]);
            assert(ut[k] == uids[k + 1]);
            assert(at[k] == actionss[k + 1]);
            assert(rt[k] == responsess[k + 1]);
            assert(lookup_success_step(
                states[k + 1],
                states[k + 2],
                uids[k + 1],
                addr,
                actionss[k + 1],
                responsess[k + 1],
            ));
        }
        if states[0].lookup_pending(uids[0]) {
            assert(actionss[0].len() == 1);
            assert(actionss.first().drop_last().len() == 0);
            assert(dials_issued(actionss.first().drop_last(), addr) == 0);
            assert(actionss.first().last() == actionss[0][0]);
            assert(dials_issued(actionss.first(), addr) == 1);
            assert(states[1].dial_waiters_of(addr).len() > 0);
            lemma_pending_chain_no_dial(st, ut, addr, at, rt);
        } else {
            assert(actionss[0].len() == 0);
            assert(dials_issued(actionss.first(), addr) == 0);
            assert(states[1].dial_waiters_of(addr).len() == 0);
            lemma_dial_dedup(st, ut, addr, at, rt);
        }
    }
}

/// Every resolution command in a run is recorded: after any number of
/// commands for `uid`, the lookup's waiter list has grown by exactly one
/// entry per command, each carrying the requesting user id.
pub proof fn lemma_chain_registers_every_request(
    states: Seq<Orchestrator>,
    actionss: Seq<Seq<NetworkAction>>,
    uid: Seq<char>,
)
    requires
        get_user_chain(states, actionss, uid),
    ensures
        states[states.len() - 1].lookup_waiters_of(uid) == states[0].lookup_waiters_of(uid)
            + Seq::new(actionss.len() as nat, |i: int| uid),
    decreases actionss.len(),
{
    if actionss.len() == 0 {
        assert(states[0].lookup_waiters_of(uid) + Seq::new(0, |i: int| uid) =~= states[0]
            .lookup_waiters_of(uid));
    } else {
        assert(get_user_step(states[0], states[1], uid, actionss[0]));
        let st = states.drop_first();
        let at = actionss.drop_first();
        assert forall|k: int| 0 <= k < at.len() implies get_user_step(
            st[k],
            st[k + 1],
            uid,
            at[k],
        ) by {
            assert(st[k] == states[k + 1]);
            assert(st[k + 1] == states[k + 2]);
            assert(at[k] == actionss[k + 1]);
            assert(get_user_step(states[k + 1], states[k + 2], uid, actionss[k + 1]));
        }
        lemma_chain_registers_every_request(st, at, uid);
        assert(st[st.len() - 1] == states[states.len() - 1]);
        assert(states[0].lookup_waiters_of(uid).push(uid) + Seq::new(
            at.len() as nat,
            |i: int| uid,
        ) =~= states[0].lookup_waiters_of(uid) + Seq::new(actionss.len() as nat, |i: int| uid));
    }
}

/// Every accepted request is answered exactly once on the failure path:
/// after a run of resolution commands for `uid`, a lookup failure produces
/// one not-found result per request that was waiting — those already
/// waiting when the run began, then one per command of the run.
pub proof fn lemma_every_request_gets_a_result(
    states: Seq<Orchestrator>,
    actionss: Seq<Seq<NetworkAction>>,
    uid: Seq<char>,
    post: Orchestrator,
    a: Seq<NetworkAction>,
    r: Seq<CommandResp>,
)
    requires
        get_user_chain(states, actionss, uid),
        lookup_failure_step(states[states.len() - 1], post, uid, a, r),
    ensures
        r.len() == states[0].lookup_waiters_of(uid).len() + actionss.len(),
        responses_for(
            r,
            states[0].lookup_waiters_of(uid) + Seq::new(actionss.len() as nat, |i: int| uid),
            false,
            false,
        ),
{
    lemma_chain_registers_every_request(states, actionss, uid);
}

/// Liveness of the success path: when a lookup resolves to an address and
/// the dial to that address then completes, every request that was waiting
/// on either receives exactly one full-success result, in order: first the
/// requests already waiting on the dial, then those the lookup brought.
pub proof fn lemma_request_resolved_on_success(
    s0: Orchestrator,
    s1: Orchestrator,
    s2: Orchestrator,
    uid: Seq<char>,
    addr: NetAddress,
    a1: Seq<NetworkAction>,
    r1: Seq<CommandResp>,
    a2: Seq<NetworkAction>,
    r2: Seq<CommandResp>,
)
    requires
        lookup_success_step(s0, s1, uid, addr, a1, r1),
        dial_success_step(s1, s2, addr, a2, r2),
    ensures
        r1.len() == 0,
        a2.len() == 0,
        r2.len() == s0.dial_waiters_of(addr).len() + s0.lookup_waiters_of(uid).len(),
        responses_for(r2, s0.dial_waiters_of(addr) + s0.lookup_waiters_of(uid), true, true),
{
}

/// Every accepted request is answered exactly once on the success path:
/// after a run of resolution commands for `uid`, a lookup completion with
/// an address followed by the dialed connection produces one full-success
/// result per waiting request — those already waiting on the dial, those
/// waiting on the lookup when the run began, then one per command of the
/// run.
pub proof fn lemma_every_request_connects(
    states: Seq<Orchestrator>,
    actionss: Seq<Seq<NetworkAction>>,
    uid: Seq<char>,
    addr: NetAddress,
    s1: Orchestrator,
    s2: Orchestrator,
    a1: Seq<NetworkAction>,
    r1: Seq<CommandResp>,
    a2: Seq<NetworkAction>,
    r2: Seq<CommandResp>,
)
    requires
        get_user_chain(states, actionss, uid),
        lookup_success_step(states[states.len() - 1], s1, uid, addr, a1, r1),
        dial_success_step(s1, s2, addr, a2, r2),
    ensures
        r2.len() == states[states.len() - 1].dial_waiters_of(addr).len() + states[0]
            .lookup_waiters_of(uid).len() + actionss.len(),
        responses_for(
            r2,
            states[states.len() - 1].dial_waiters_of(addr) + (states[0].lookup_waiters_of(uid)
                + Seq::new(actionss.len() as nat, |i: int| uid)),
            true,
            true,
        ),
{
    lemma_chain_registers_every_request(states, actionss, uid);
    lemma_request_resolved_on_success(
        states[states.len() - 1],
        s1,
        s2,
        uid,
        addr,
        a1,
        r1,
        a2,
        r2,
    );
}

/// Liveness of the failure path: when a lookup fails, every request that
/// was waiting on it receives exactly one not-found result.
pub proof fn lemma_request_resolved_on_failure(
    s0: Orchestrator,
    s1: Orchestrator,
    uid: Seq<char>,
    a1: Seq<NetworkAction>,
    r1: Seq<CommandResp>,
)
    requires
        lookup_failure_step(s0, s1, uid, a1, r1),
    ensures
        r1.len() == s0.lookup_waiters_of(uid).len(),
        responses_for(r1, s0.lookup_waiters_of(uid), false, false),
{
}

/// Registry cleanup, lookup side: once a lookup for a user id has resolved,
/// the next resolution command for that id issues a fresh lookup.
pub proof fn lemma_fresh_lookup_after_resolution(
    s0: Orchestrator,
    s1: Orchestrator,
    s2: Orchestrator,
    uid: Seq<char>,
    a1: Seq<NetworkAction>,
    r1: Seq<CommandResp>,
    a2: Seq<NetworkAction>,
)
    requires
        lookup_failure_step(s0, s1, uid, a1, r1),
        get_user_step(s1, s2, uid, a2),
    ensures
        a2.len() == 1,
        (a2[0] matches NetworkAction::IssueLookup { key } && key@ == uid),
{
}

/// Registry cleanup, dial side: once the dial to an address has resolved, a
/// later lookup completion with waiters that resolves to that address
/// issues a fresh dial.
pub proof fn lemma_fresh_dial_after_resolution(
    s0: Orchestrator,
    s1: Orchestrator,
    s2: Orchestrator,
    uid: Seq<char>,
    addr: NetAddress,
    a1: Seq<NetworkAction>,
    r1: Seq<CommandResp>,
    a2: Seq<NetworkAction>,
    r2: Seq<CommandResp>,
)
    requires
        dial_success_step(s0, s1, addr, a1, r1),
        lookup_success_step(s1, s2, uid, addr, a2, r2),
        s1.lookup_pending(uid),
    ensures
        a2.len() == 1,
        (a2[0] matches NetworkAction::Dial { address } && address == addr),
{
}

} // verus!
