//! The pending-request registry: two deduplication tables, one keyed by user
//! id for outstanding lookups and one keyed by network address for
//! outstanding dial attempts.
//!
//! Each table maps its key to the list of requests waiting on that key, so a
//! single physical lookup or dial fans its one outcome out to every logical
//! waiter. Registering under a key that is already present joins the
//! existing operation instead of starting a second one; resolving a key
//! removes its entry and hands back every waiter at once.

use vstd::prelude::*;
use crate::addr::NetAddress;

verus! {

/// One outstanding lookup: the user id under lookup, and the user id of
/// every request waiting for the outcome.
pub struct LookupEntry {
    pub user_id: String,
    pub waiters: Vec<String>,
}

/// One outstanding dial attempt: the address being dialed, and the user id
/// of every request waiting for the connection.
pub struct DialEntry {
    pub address: NetAddress,
    pub waiters: Vec<String>,
}

/// The requests waiting on the lookup for `uid`: the concatenation, in entry
/// order, of the waiter lists of the entries keyed by `uid`.
pub open spec fn lookup_waiters(s: Seq<LookupEntry>, uid: Seq<char>) -> Seq<Seq<char>>
    decreases s.len(),
{
    if s.len() == 0 {
        Seq::empty()
    } else {
        lookup_waiters(s.drop_last(), uid) + (if s.last().user_id@ == uid {
            s.last().waiters.deep_view()
        } else {
            Seq::empty()
        })
    }
}

/// The requests waiting on the dial for `addr`, in entry order.
pub open spec fn dial_waiters(s: Seq<DialEntry>, addr: NetAddress) -> Seq<Seq<char>>
    decreases s.len(),
{
    if s.len() == 0 {
        Seq::empty()
    } else {
        dial_waiters(s.drop_last(), addr) + (if s.last().address == addr {
            s.last().waiters.deep_view()
        } else {
            Seq::empty()
        })
    }
}

/// At most one lookup entry per user id.
pub open spec fn lookup_keys_distinct(s: Seq<LookupEntry>) -> bool {
    forall|i: int, j: int| 0 <= i < j < s.len() ==> s[i].user_id@ != s[j].user_id@
}

/// Every lookup entry carries at least one waiter.
pub open spec fn lookup_entries_nonempty(s: Seq<LookupEntry>) -> bool {
    forall|i: int| 0 <= i < s.len() ==> s[i].waiters.len() >= 1
}

/// At most one dial entry per address.
pub open spec fn dial_keys_distinct(s: Seq<DialEntry>) -> bool {
    forall|i: int, j: int| 0 <= i < j < s.len() ==> s[i].address != s[j].address
}

/// Every dial entry carries at least one waiter.
pub open spec fn dial_entries_nonempty(s: Seq<DialEntry>) -> bool {
    forall|i: int| 0 <= i < s.len() ==> s[i].waiters.len() >= 1
}

/// A table without an entry for `uid` holds no waiters for it.
pub proof fn lemma_lookup_waiters_absent(s: Seq<LookupEntry>, uid: Seq<char>)
    requires
        forall|i: int| 0 <= i < s.len() ==> s[i].user_id@ != uid,
    ensures
        lookup_waiters(s, uid) == Seq::<Seq<char>>::empty(),
    decreases s.len(),
{
    if s.len() > 0 {
        lemma_lookup_waiters_absent(s.drop_last(), uid);
        assert(s[s.len() - 1].user_id@ != uid);
        assert(lookup_waiters(s, uid) =~= Seq::<Seq<char>>::empty());
    }
}

/// Appending an entry appends exactly its contribution for every key.
pub proof fn lemma_lookup_waiters_push(s: Seq<LookupEntry>, e: LookupEntry, uid: Seq<char>)
    ensures
        lookup_waiters(s.push(e), uid) == lookup_waiters(s, uid) + (if e.user_id@ == uid {
            e.waiters.deep_view()
        } else {
            Seq::<Seq<char>>::empty()
        }),
{
    assert(s.push(e).drop_last() =~= s);
    assert(s.push(e).last() == e);
}

/// Appending an entry for another key leaves a key's waiters unchanged.
pub proof fn lemma_lookup_waiters_push_other(s: Seq<LookupEntry>, e: LookupEntry, uid: Seq<char>)
    requires
        e.user_id@ != uid,
    ensures
        lookup_waiters(s.push(e), uid) == lookup_waiters(s, uid),
{
    lemma_lookup_waiters_push(s, e, uid);
    assert(lookup_waiters(s, uid) + Seq::<Seq<char>>::empty() =~= lookup_waiters(s, uid));
}

/// Removing an entry for another key leaves a key's waiters unchanged.
pub proof fn lemma_lookup_waiters_remove_other(s: Seq<LookupEntry>, i: int, uid: Seq<char>)
    requires
        0 <= i < s.len(),
        s[i].user_id@ != uid,
    ensures
        lookup_waiters(s.remove(i), uid) == lookup_waiters(s, uid),
    decreases s.len(),
{
    if i == s.len() - 1 {
        assert(s.remove(i) =~= s.drop_last());
        assert(lookup_waiters(s.drop_last(), uid) + Seq::<Seq<char>>::empty() =~= lookup_waiters(
            s.drop_last(),
            uid,
        ));
    } else {
        let t = s.drop_last();
        lemma_lookup_waiters_remove_other(t, i, uid);
        assert(s.remove(i).drop_last() =~= t.remove(i));
        assert(s.remove(i).last() == s.last());
    }
}

/// With distinct keys, a key's waiters are exactly its entry's waiter list.
pub proof fn lemma_lookup_waiters_found(s: Seq<LookupEntry>, i: int)
    requires
        lookup_keys_distinct(s),
        0 <= i < s.len(),
    ensures
        lookup_waiters(s, s[i].user_id@) == s[i].waiters.deep_view(),
    decreases s.len(),
{
    let uid = s[i].user_id@;
    if i == s.len() - 1 {
        assert forall|j: int| 0 <= j < s.drop_last().len() implies s.drop_last()[j].user_id@
            != uid by {
            assert(s.drop_last()[j] == s[j]);
        }
        lemma_lookup_waiters_absent(s.drop_last(), uid);
        assert(Seq::<Seq<char>>::empty() + s[i].waiters.deep_view() =~= s[i].waiters.deep_view());
    } else {
        let t = s.drop_last();
        assert(t[i] == s[i]);
        lemma_lookup_waiters_found(t, i);
        assert(s[s.len() - 1].user_id@ != uid);
        assert(lookup_waiters(t, uid) + Seq::<Seq<char>>::empty() =~= lookup_waiters(t, uid));
    }
}

/// Removing a key's entry leaves no waiters for that key, and keeps the
/// remaining keys distinct.
pub proof fn lemma_lookup_waiters_remove_found(s: Seq<LookupEntry>, i: int)
    requires
        lookup_keys_distinct(s),
        0 <= i < s.len(),
    ensures
        lookup_waiters(s.remove(i), s[i].user_id@) == Seq::<Seq<char>>::empty(),
        lookup_keys_distinct(s.remove(i)),
        forall|j: int| 0 <= j < s.remove(i).len() ==> #[trigger] s.remove(i)[j].user_id@
            != s[i].user_id@,
{
    let uid = s[i].user_id@;
    assert forall|j: int| 0 <= j < s.remove(i).len() implies #[trigger] s.remove(i)[j].user_id@
        != uid by {
        if j < i {
            assert(s.remove(i)[j] == s[j]);
        } else {
            assert(s.remove(i)[j] == s[j + 1]);
        }
    }
    lemma_lookup_waiters_absent(s.remove(i), uid);
    assert forall|x: int, y: int| 0 <= x < y < s.remove(i).len() implies s.remove(i)[x].user_id@
        != s.remove(i)[y].user_id@ by {
        if x < i {
            assert(s.remove(i)[x] == s[x]);
        } else {
            assert(s.remove(i)[x] == s[x + 1]);
        }
        if y < i {
            assert(s.remove(i)[y] == s[y]);
        } else {
            assert(s.remove(i)[y] == s[y + 1]);
        }
    }
}

/// A table without an entry for `addr` holds no waiters for it.
pub proof fn lemma_dial_waiters_absent(s: Seq<DialEntry>, addr: NetAddress)
    requires
        forall|i: int| 0 <= i < s.len() ==> s[i].address != addr,
    ensures
        dial_waiters(s, addr) == Seq::<Seq<char>>::empty(),
    decreases s.len(),
{
    if s.len() > 0 {
        lemma_dial_waiters_absent(s.drop_last(), addr);
        assert(s[s.len() - 1].address != addr);
        assert(dial_waiters(s, addr) =~= Seq::<Seq<char>>::empty());
    }
}

/// Appending an entry appends exactly its contribution for every address.
pub proof fn lemma_dial_waiters_push(s: Seq<DialEntry>, e: DialEntry, addr: NetAddress)
    ensures
        dial_waiters(s.push(e), addr) == dial_waiters(s, addr) + (if e.address == addr {
            e.waiters.deep_view()
        } else {
            Seq::<Seq<char>>::empty()
        }),
{
    assert(s.push(e).drop_last() =~= s);
    assert(s.push(e).last() == e);
}

/// Appending an entry for another address leaves an address's waiters
/// unchanged.
pub proof fn lemma_dial_waiters_push_other(s: Seq<DialEntry>, e: DialEntry, addr: NetAddress)
    requires
        e.address != addr,
    ensures
        dial_waiters(s.push(e), addr) == dial_waiters(s, addr),
{
    lemma_dial_waiters_push(s, e, addr);
    assert(dial_waiters(s, addr) + Seq::<Seq<char>>::empty() =~= dial_waiters(s, addr));
}

/// Removing an entry for another address leaves an address's waiters
/// unchanged.
pub proof fn lemma_dial_waiters_remove_other(s: Seq<DialEntry>, i: int, addr: NetAddress)
    requires
        0 <= i < s.len(),
        s[i].address != addr,
    ensures
        dial_waiters(s.remove(i), addr) == dial_waiters(s, addr),
    decreases s.len(),
{
    if i == s.len() - 1 {
        assert(s.remove(i) =~= s.drop_last());
        assert(dial_waiters(s.drop_last(), addr) + Seq::<Seq<char>>::empty() =~= dial_waiters(
            s.drop_last(),
            addr,
        ));
    } else {
        let t = s.drop_last();
        lemma_dial_waiters_remove_other(t, i, addr);
        assert(s.remove(i).drop_last() =~= t.remove(i));
        assert(s.remove(i).last() == s.last());
    }
}

/// With distinct addresses, an address's waiters are exactly its entry's
/// waiter list.
pub proof fn lemma_dial_waiters_found(s: Seq<DialEntry>, i: int)
    requires
        dial_keys_distinct(s),
        0 <= i < s.len(),
    ensures
        dial_waiters(s, s[i].address) == s[i].waiters.deep_view(),
    decreases s.len(),
{
    let addr = s[i].address;
    if i == s.len() - 1 {
        assert forall|j: int| 0 <= j < s.drop_last().len() implies s.drop_last()[j].address
            != addr by {
            assert(s.drop_last()[j] == s[j]);
        }
        lemma_dial_waiters_absent(s.drop_last(), addr);
        assert(Seq::<Seq<char>>::empty() + s[i].waiters.deep_view() =~= s[i].waiters.deep_view());
    } else {
        let t = s.drop_last();
        assert(t[i] == s[i]);
        lemma_dial_waiters_found(t, i);
        assert(s[s.len() - 1].address != addr);
        assert(dial_waiters(t, addr) + Seq::<Seq<char>>::empty() =~= dial_waiters(t, addr));
    }
}

/// Removing an address's entry leaves no waiters for that address, and keeps
/// the remaining addresses distinct.
pub proof fn lemma_dial_waiters_remove_found(s: Seq<DialEntry>, i: int)
    requires
        dial_keys_distinct(s),
        0 <= i < s.len(),
    ensures
        dial_waiters(s.remove(i), s[i].address) == Seq::<Seq<char>>::empty(),
        dial_keys_distinct(s.remove(i)),
        forall|j: int| 0 <= j < s.remove(i).len() ==> #[trigger] s.remove(i)[j].address
            != s[i].address,
{
    let addr = s[i].address;
    assert forall|j: int| 0 <= j < s.remove(i).len() implies #[trigger] s.remove(i)[j].address
        != addr by {
        if j < i {
            assert(s.remove(i)[j] == s[j]);
        } else {
            assert(s.remove(i)[j] == s[j + 1]);
        }
    }
    lemma_dial_waiters_absent(s.remove(i), addr);
    assert forall|x: int, y: int| 0 <= x < y < s.remove(i).len() implies s.remove(i)[x].address
        != s.remove(i)[y].address by {
        if x < i {
            assert(s.remove(i)[x] == s[x]);
        } else {
            assert(s.remove(i)[x] == s[x + 1]);
        }
        if y < i {
            assert(s.remove(i)[y] == s[y]);
        } else {
            assert(s.remove(i)[y] == s[y + 1]);
        }
    }
}

/// The two deduplication tables, shared by the event dispatcher and every
/// in-flight request.
pub struct PendingRequests {
    pub lookups: Vec<LookupEntry>,
    pub dials: Vec<DialEntry>,
}

impl PendingRequests {
    /// Well-formedness: each key appears at most once, and no entry lingers
    /// without a waiter.
    pub open spec fn wf(self) -> bool {
        &&& lookup_keys_distinct(self.lookups@)
        &&& lookup_entries_nonempty(self.lookups@)
        &&& dial_keys_distinct(self.dials@)
        &&& dial_entries_nonempty(self.dials@)
    }

    /// The requests waiting on the lookup for `uid`.
    pub open spec fn lookup_waiters_of(self, uid: Seq<char>) -> Seq<Seq<char>> {
        lookup_waiters(self.lookups@, uid)
    }

    /// The requests waiting on the dial for `addr`.
    pub open spec fn dial_waiters_of(self, addr: NetAddress) -> Seq<Seq<char>> {
        dial_waiters(self.dials@, addr)
    }

    /// Whether a lookup for `uid` is in flight.
    pub open spec fn lookup_pending(self, uid: Seq<char>) -> bool {
        self.lookup_waiters_of(uid).len() != 0
    }

    /// Whether a dial for `addr` is in flight.
    pub open spec fn dial_pending(self, addr: NetAddress) -> bool {
        self.dial_waiters_of(addr).len() != 0
    }

    /// An empty registry: nothing pending under any key.
    pub fn new() -> (r: PendingRequests)
        ensures
            r.wf(),
            r.lookups@ == Seq::<LookupEntry>::empty(),
            r.dials@ == Seq::<DialEntry>::empty(),
    {
        PendingRequests { lookups: Vec::new(), dials: Vec::new() }
    }

    /// The position of the lookup entry for `user_id`, if one exists.
    fn find_lookup(&self, user_id: &String) -> (r: Option<usize>)
        ensures
            match r {
                Some(i) => i < self.lookups@.len() && self.lookups@[i as int].user_id@
                    == user_id@,
                None => forall|j: int| 0 <= j < self.lookups@.len() ==> self.lookups@[j].user_id@
                    != user_id@,
            },
    {
        let mut i: usize = 0;
        while i < self.lookups.len()
            invariant
                i <= self.lookups@.len(),
                forall|j: int| 0 <= j < i ==> self.lookups@[j].user_id@ != user_id@,
            decreases self.lookups@.len() - i,
        {
            if self.lookups[i].user_id == *user_id {
                return Some(i);
            }
            i = i + 1;
        }
        None
    }

    /// The position of the dial entry for `address`, if one exists.
    fn find_dial(&self, address: &NetAddress) -> (r: Option<usize>)
        ensures
            match r {
                Some(i) => i < self.dials@.len() && self.dials@[i as int].address == *address,
                None => forall|j: int| 0 <= j < self.dials@.len() ==> self.dials@[j].address
                    != *address,
            },
    {
        let mut i: usize = 0;
        while i < self.dials.len()
            invariant
                i <= self.dials@.len(),
                forall|j: int| 0 <= j < i ==> self.dials@[j].address != *address,
            decreases self.dials@.len() - i,
        {
            if self.dials[i].address == *address {
                return Some(i);
            }
            i = i + 1;
        }
        None
    }

    /// Adds a request to the lookup table under its own user id.
    ///
    /// The result says whether the key was new: exactly then must the caller
    /// issue a lookup to the distributed lookup layer; otherwise the request
    /// has joined a lookup that is already in flight.
    pub fn register_lookup(&mut self, user_id: &String) -> (fresh: bool)
        requires
            old(self).wf(),
        ensures
            final(self).wf(),
            fresh == !old(self).lookup_pending(user_id@),
            final(self).lookup_waiters_of(user_id@) == old(self).lookup_waiters_of(
                user_id@,
            ).push(user_id@),
            forall|u: Seq<char>| u != user_id@ ==> final(self).lookup_waiters_of(u) == old(
                self,
            ).lookup_waiters_of(u),
            final(self).dials@ == old(self).dials@,
    {
        let ghost s0 = self.lookups@;
        match self.find_lookup(user_id) {
            Some(i) => {
                proof {
                    lemma_lookup_waiters_found(s0, i as int);
                    lemma_lookup_waiters_remove_found(s0, i as int);
                }
                let mut e = self.lookups.remove(i);
                e.waiters.push(user_id.clone());
                self.lookups.push(e);
                proof {
                    let uid = user_id@;
                    let s1 = s0.remove(i as int);
                    let en = self.lookups@.last();
                    assert(self.lookups@ == s1.push(en));
                    assert(en.user_id@ == uid);
                    assert(en.waiters.deep_view() =~= s0[i as int].waiters.deep_view().push(uid));
                    lemma_lookup_waiters_push(s1, en, uid);
                    assert(final(self).lookup_waiters_of(uid) =~= old(self).lookup_waiters_of(
                        uid,
                    ).push(uid));
                    assert forall|u: Seq<char>| u != uid implies final(self).lookup_waiters_of(u)
                        == old(self).lookup_waiters_of(u) by {
                        lemma_lookup_waiters_remove_other(s0, i as int, u);
                        lemma_lookup_waiters_push_other(s1, en, u);
                    }
                    assert forall|x: int, y: int|
                        0 <= x < y < self.lookups@.len() implies self.lookups@[x].user_id@
                        != self.lookups@[y].user_id@ by {
                        if y < self.lookups@.len() - 1 {
                            assert(self.lookups@[x] == s1[x]);
                            assert(self.lookups@[y] == s1[y]);
                        } else {
                            assert(self.lookups@[x] == s1[x]);
                            assert(self.lookups@[y] == en);
                        }
                    }
                    assert(lookup_entries_nonempty(self.lookups@));
                }
                false
            },
            None => {
                proof {
                    lemma_lookup_waiters_absent(s0, user_id@);
                }
                let mut ws: Vec<String> = Vec::new();
                ws.push(user_id.clone());
                let e = LookupEntry { user_id: user_id.clone(), waiters: ws };
                self.lookups.push(e);
                proof {
                    let uid = user_id@;
                    let en = self.lookups@.last();
                    assert(self.lookups@ == s0.push(en));
                    assert(en.waiters.deep_view() =~= Seq::<Seq<char>>::empty().push(uid));
                    lemma_lookup_waiters_push(s0, en, uid);
                    assert(final(self).lookup_waiters_of(uid) =~= old(self).lookup_waiters_of(
                        uid,
                    ).push(uid));
                    assert forall|u: Seq<char>| u != uid implies final(self).lookup_waiters_of(u)
                        == old(self).lookup_waiters_of(u) by {
                        lemma_lookup_waiters_push_other(s0, en, u);
                    }
                    assert forall|x: int, y: int|
                        0 <= x < y < self.lookups@.len() implies self.lookups@[x].user_id@
                        != self.lookups@[y].user_id@ by {
                        if y < self.lookups@.len() - 1 {
                            assert(self.lookups@[x] == s0[x]);
                            assert(self.lookups@[y] == s0[y]);
                        } else {
                            assert(self.lookups@[x] == s0[x]);
                            assert(self.lookups@[y] == en);
                        }
                    }
                    assert(lookup_entries_nonempty(self.lookups@));
                }
                true
            },
        }
    }

    /// Removes the lookup entry for `user_id` and hands back every request
    /// that was waiting on it; with nothing pending this is a no-op that
    /// returns no waiters.
    pub fn resolve_lookup(&mut self, user_id: &String) -> (ws: Vec<String>)
        requires
            old(self).wf(),
        ensures
            final(self).wf(),
            ws.deep_view() == old(self).lookup_waiters_of(user_id@),
            final(self).lookup_waiters_of(user_id@) == Seq::<Seq<char>>::empty(),
            forall|u: Seq<char>| u != user_id@ ==> final(self).lookup_waiters_of(u) == old(
                self,
            ).lookup_waiters_of(u),
            final(self).dials@ == old(self).dials@,
    {
        let ghost s0 = self.lookups@;
        match self.find_lookup(user_id) {
            Some(i) => {
                proof {
                    lemma_lookup_waiters_found(s0, i as int);
                    lemma_lookup_waiters_remove_found(s0, i as int);
                    assert forall|u: Seq<char>| u != user_id@ implies lookup_waiters(
                        s0.remove(i as int),
                        u,
                    ) == lookup_waiters(s0, u) by {
                        lemma_lookup_waiters_remove_other(s0, i as int, u);
                    }
                }
                let e = self.lookups.remove(i);
                e.waiters
            },
            None => {
                proof {
                    lemma_lookup_waiters_absent(s0, user_id@);
                }
                let ws: Vec<String> = Vec::new();
                proof {
                    assert(ws.deep_view() =~= Seq::<Seq<char>>::empty());
                }
                ws
            },
        }
    }

    /// Adds the request `waiter` to the dial table under `address`.
    ///
    /// The result says whether the key was new: exactly then must the caller
    /// issue a dial to the network stack; otherwise the request shares the
    /// dial already in flight for that address.
    pub fn register_dial(&mut self, address: &NetAddress, waiter: String) -> (fresh: bool)
        requires
            old(self).wf(),
        ensures
            final(self).wf(),
            fresh == !old(self).dial_pending(*address),
            final(self).dial_waiters_of(*address) == old(self).dial_waiters_of(*address).push(
                waiter@,
            ),
            forall|a: NetAddress| a != *address ==> final(self).dial_waiters_of(a) == old(
                self,
            ).dial_waiters_of(a),
            final(self).lookups@ == old(self).lookups@,
    {
        let ghost s0 = self.dials@;
        match self.find_dial(address) {
            Some(i) => {
                proof {
                    lemma_dial_waiters_found(s0, i as int);
                    lemma_dial_waiters_remove_found(s0, i as int);
                }
                let mut e = self.dials.remove(i);
                e.waiters.push(waiter);
                self.dials.push(e);
                proof {
                    let ad = *address;
                    let s1 = s0.remove(i as int);
                    let en = self.dials@.last();
                    assert(self.dials@ == s1.push(en));
                    assert(en.address == ad);
                    assert(en.waiters.deep_view() =~= s0[i as int].waiters.deep_view().push(
                        waiter@,
                    ));
                    lemma_dial_waiters_push(s1, en, ad);
                    assert(final(self).dial_waiters_of(ad) =~= old(self).dial_waiters_of(ad).push(
                        waiter@,
                    ));
                    assert forall|a: NetAddress| a != ad implies final(self).dial_waiters_of(a)
                        == old(self).dial_waiters_of(a) by {
                        lemma_dial_waiters_remove_other(s0, i as int, a);
                        lemma_dial_waiters_push_other(s1, en, a);
                    }
                    assert forall|x: int, y: int|
                        0 <= x < y < self.dials@.len() implies self.dials@[x].address
                        != self.dials@[y].address by {
                        if y < self.dials@.len() - 1 {
                            assert(self.dials@[x] == s1[x]);
                            assert(self.dials@[y] == s1[y]);
                        } else {
                            assert(self.dials@[x] == s1[x]);
                            assert(self.dials@[y] == en);
                        }
                    }
                    assert(dial_entries_nonempty(self.dials@));
                }
                false
            },
            None => {
                proof {
                    lemma_dial_waiters_absent(s0, *address);
                }
                let ghost wv = waiter@;
                let mut ws: Vec<String> = Vec::new();
                ws.push(waiter);
                let e = DialEntry { address: *address, waiters: ws };
                self.dials.push(e);
                proof {
                    let ad = *address;
                    let en = self.dials@.last();
                    assert(self.dials@ == s0.push(en));
                    assert(en.waiters.deep_view() =~= Seq::<Seq<char>>::empty().push(wv));
                    lemma_dial_waiters_push(s0, en, ad);
                    assert(final(self).dial_waiters_of(ad) =~= old(self).dial_waiters_of(ad).push(
                        wv,
                    ));
                    assert forall|a: NetAddress| a != ad implies final(self).dial_waiters_of(a)
                        == old(self).dial_waiters_of(a) by {
                        lemma_dial_waiters_push_other(s0, en, a);
                    }
                    assert forall|x: int, y: int|
                        0 <= x < y < self.dials@.len() implies self.dials@[x].address
                        != self.dials@[y].address by {
                        if y < self.dials@.len() - 1 {
                            assert(self.dials@[x] == s0[x]);
                            assert(self.dials@[y] == s0[y]);
                        } else {
                            assert(self.dials@[x] == s0[x]);
                            assert(self.dials@[y] == en);
                        }
                    }
                    assert(dial_entries_nonempty(self.dials@));
                }
                true
            },
        }
    }

    /// Removes the dial entry for `address` and hands back every request
    /// that was waiting on it; with nothing pending this is a no-op that
    /// returns no waiters.
    pub fn resolve_dial(&mut self, address: &NetAddress) -> (ws: Vec<String>)
        requires
            old(self).wf(),
        ensures
            final(self).wf(),
            ws.deep_view() == old(self).dial_waiters_of(*address),
            final(self).dial_waiters_of(*address) == Seq::<Seq<char>>::empty(),
            forall|a: NetAddress| a != *address ==> final(self).dial_waiters_of(a) == old(
                self,
            ).dial_waiters_of(a),
            final(self).lookups@ == old(self).lookups@,
    {
        let ghost s0 = self.dials@;
        match self.find_dial(address) {
            Some(i) => {
                proof {
                    lemma_dial_waiters_found(s0, i as int);
                    lemma_dial_waiters_remove_found(s0, i as int);
                    assert forall|a: NetAddress| a != *address implies dial_waiters(
                        s0.remove(i as int),
                        a,
                    ) == dial_waiters(s0, a) by {
                        lemma_dial_waiters_remove_other(s0, i as int, a);
                    }
                }
                let e = self.dials.remove(i);
                e.waiters
            },
            None => {
                proof {
                    lemma_dial_waiters_absent(s0, *address);
                }
                let ws: Vec<String> = Vec::new();
                proof {
                    assert(ws.deep_view() =~= Seq::<Seq<char>>::empty());
                }
                ws
            },
        }
    }
}

} // verus!
