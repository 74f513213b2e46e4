use std::collections::HashMap;
use vstd::prelude::*;

verus! {

broadcast use vstd::std_specs::hash::group_hash_axioms;

/// A time-bounded exclusive claim on a resource key.
///
/// `term_id` numbers one continuous tenure of the holder: a fresh grant opens
/// a new tenure and draws its number from the same counter as the fencing
/// token, so the terms of a key only ever grow. A renewal keeps both numbers
/// and only moves `expire_at`.
#[derive(Clone, Copy, Debug, PartialEq, Eq, Structural)]
pub struct Lease {
    pub holder_id: u64,
    pub resource_key: u64,
    pub term_id: u64,
    pub expire_at: u64,
    pub fencing_token: u64,
}

impl Lease {
    /// A lease is live up to and including its expiry instant.
    pub open spec fn live_at(self, now: u64) -> bool {
        now <= self.expire_at
    }

    pub fn is_live(&self, now: u64) -> (r: bool)
        ensures
            r == self.live_at(now),
    {
        now <= self.expire_at
    }
}

#[derive(Clone, Copy, Debug, PartialEq, Eq, Structural)]
pub enum LeaseError {
    /// An unexpired lease on the key belongs to another holder.
    AlreadyHeld,
    /// The presented fencing token (or holder) is not the current lease's.
    StaleToken,
    /// There is no unexpired lease to renew; the caller must grant anew.
    Expired,
}

/// Abstract state of a lease table: the stored lease of each key (which may
/// have lapsed, expiry being observed lazily) and the next fencing token.
pub struct LeaseTable {
    pub leases: Map<u64, Lease>,
    pub next_token: u64,
}

impl LeaseTable {
    /// Each stored lease sits under its own key and carries a token that was
    /// issued before the counter's current value.
    pub open spec fn wf(self) -> bool {
        &&& self.next_token >= 1
        &&& forall|k: u64|
            #![trigger self.leases[k]]
            self.leases.contains_key(k) ==> {
                &&& self.leases[k].resource_key == k
                &&& self.leases[k].fencing_token < self.next_token
                &&& self.leases[k].term_id == self.leases[k].fencing_token
            }
    }

    /// The unexpired lease on `key` at time `now`, if any.
    pub open spec fn live_lease(self, key: u64, now: u64) -> Option<Lease> {
        if self.leases.contains_key(key) && self.leases[key].live_at(now) {
            Some(self.leases[key])
        } else {
            None
        }
    }
}

/// `l` renewed at `now` for `ttl`: the expiry moves to `now + ttl` unless it
/// already lies later; holder, term and token stay.
pub open spec fn extend_lease(l: Lease, ttl: u64, now: u64) -> Lease {
    Lease {
        expire_at: if now + ttl > l.expire_at {
            (now + ttl) as u64
        } else {
            l.expire_at
        },
        ..l
    }
}

/// The lease that a fresh grant hands out.
pub open spec fn fresh_lease(t: LeaseTable, key: u64, holder: u64, ttl: u64, now: u64) -> Lease {
    Lease {
        holder_id: holder,
        resource_key: key,
        term_id: t.next_token,
        expire_at: (now + ttl) as u64,
        fencing_token: t.next_token,
    }
}

/// Effect of `grant`: the same holder renews its live lease; another
/// holder's live lease refuses; otherwise a new tenure starts.
pub open spec fn grant_step(t: LeaseTable, key: u64, holder: u64, ttl: u64, now: u64) -> (
    LeaseTable,
    Result<Lease, LeaseError>,
) {
    match t.live_lease(key, now) {
        Some(l) => if l.holder_id == holder {
            let n = extend_lease(l, ttl, now);
            (LeaseTable { leases: t.leases.insert(key, n), ..t }, Ok(n))
        } else {
            (t, Err(LeaseError::AlreadyHeld))
        },
        None => {
            let n = fresh_lease(t, key, holder, ttl, now);
            (
                LeaseTable { leases: t.leases.insert(key, n), next_token: (t.next_token + 1) as u64 },
                Ok(n),
            )
        },
    }
}

/// Effect of `renew`: the token and holder must be the stored lease's, and
/// that lease must not have lapsed.
pub open spec fn renew_step(
    t: LeaseTable,
    key: u64,
    holder: u64,
    token: u64,
    ttl: u64,
    now: u64,
) -> (LeaseTable, Result<Lease, LeaseError>) {
    if !t.leases.contains_key(key) {
        (t, Err(LeaseError::Expired))
    } else {
        let l = t.leases[key];
        if l.fencing_token != token || l.holder_id != holder {
            (t, Err(LeaseError::StaleToken))
        } else if !l.live_at(now) {
            (t, Err(LeaseError::Expired))
        } else {
            let n = extend_lease(l, ttl, now);
            (LeaseTable { leases: t.leases.insert(key, n), ..t }, Ok(n))
        }
    }
}

/// Effect of `revoke`: the holder's live lease is removed; anything else is
/// left as it is.
pub open spec fn revoke_step(t: LeaseTable, key: u64, holder: u64, now: u64) -> (LeaseTable, bool) {
    match t.live_lease(key, now) {
        Some(l) => if l.holder_id == holder {
            (LeaseTable { leases: t.leases.remove(key), ..t }, true)
        } else {
            (t, false)
        },
        None => (t, false),
    }
}

/// Grants, renews and revokes leases. Expiry is lazy: a lease counts as
/// expired as soon as a reader observes a time past its `expire_at`.
pub struct LeaseManager {
    leases: HashMap<u64, Lease>,
    next_token: u64,
}

impl View for LeaseManager {
    type V = LeaseTable;

    closed spec fn view(&self) -> LeaseTable {
        LeaseTable { leases: self.leases@, next_token: self.next_token }
    }
}

impl LeaseManager {
    pub fn new() -> (r: Self)
        ensures
            r@.wf(),
            r@.leases.is_empty(),
            r@.next_token == 1,
    {
        let r = LeaseManager { leases: HashMap::new(), next_token: 1 };
        proof {
            assert(r@.leases =~= Map::<u64, Lease>::empty());
        }
        r
    }

    /// The token that the next fresh grant will carry.
    pub fn next_token(&self) -> (r: u64)
        ensures
            r == self@.next_token,
    {
        self.next_token
    }

    /// The stored lease on `key`, live or lapsed.
    fn stored(&self, key: u64) -> (r: Option<Lease>)
        ensures
            r == (if self@.leases.contains_key(key) {
                Some(self@.leases[key])
            } else {
                None
            }),
    {
        match self.leases.get(&key) {
            Some(l) => Some(*l),
            None => None,
        }
    }

    /// The unexpired lease on `key` at time `now`, if any.
    pub fn get(&self, key: u64, now: u64) -> (r: Option<Lease>)
        ensures
            r == self@.live_lease(key, now),
    {
        match self.stored(key) {
            Some(l) => if l.is_live(now) {
                Some(l)
            } else {
                None
            },
            None => None,
        }
    }

    /// Grants `key` to `holder` for `ttl` from `now`. The same holder
    /// re-granting before expiry renews its lease in place; an unexpired
    /// lease of another holder gives `AlreadyHeld`.
    pub fn grant(&mut self, key: u64, holder: u64, ttl: u64, now: u64) -> (r: Result<
        Lease,
        LeaseError,
    >)
        requires
            old(self)@.wf(),
            now + ttl <= u64::MAX,
            old(self)@.next_token < u64::MAX,
        ensures
            final(self)@.wf(),
            (final(self)@, r) == grant_step(old(self)@, key, holder, ttl, now),
    {
        let ghost t = self@;
        let expire: u64 = now + ttl;
        match self.get(key, now) {
            Some(l) => {
                if l.holder_id == holder {
                    let n = Lease {
                        expire_at: if expire > l.expire_at {
                            expire
                        } else {
                            l.expire_at
                        },
                        ..l
                    };
                    self.leases.insert(key, n);
                    proof {
                        assert(self@.leases == t.leases.insert(key, n));
                    }
                    Ok(n)
                } else {
                    Err(LeaseError::AlreadyHeld)
                }
            },
            None => {
                let n = Lease {
                    holder_id: holder,
                    resource_key: key,
                    term_id: self.next_token,
                    expire_at: expire,
                    fencing_token: self.next_token,
                };
                self.leases.insert(key, n);
                self.next_token = self.next_token + 1;
                Ok(n)
            },
        }
    }

    /// Renews the lease on `key` presented with `token`. A token or holder
    /// other than the stored lease's gives `StaleToken`; a missing or lapsed
    /// lease gives `Expired`.
    pub fn renew(&mut self, key: u64, holder: u64, token: u64, ttl: u64, now: u64) -> (r: Result<
        Lease,
        LeaseError,
    >)
        requires
            old(self)@.wf(),
            now + ttl <= u64::MAX,
        ensures
            final(self)@.wf(),
            (final(self)@, r) == renew_step(old(self)@, key, holder, token, ttl, now),
    {
        let expire: u64 = now + ttl;
        match self.stored(key) {
            None => Err(LeaseError::Expired),
            Some(l) => {
                if l.fencing_token != token || l.holder_id != holder {
                    Err(LeaseError::StaleToken)
                } else if !l.is_live(now) {
                    Err(LeaseError::Expired)
                } else {
                    let n = Lease {
                        expire_at: if expire > l.expire_at {
                            expire
                        } else {
                            l.expire_at
                        },
                        ..l
                    };
                    self.leases.insert(key, n);
                    Ok(n)
                }
            },
        }
    }

    /// Releases `holder`'s unexpired lease on `key`; returns whether a lease
    /// was released. A lapsed lease, or one of another holder, stays.
    pub fn revoke(&mut self, key: u64, holder: u64, now: u64) -> (r: bool)
        requires
            old(self)@.wf(),
        ensures
            final(self)@.wf(),
            (final(self)@, r) == revoke_step(old(self)@, key, holder, now),
    {
        match self.get(key, now) {
            Some(l) => {
                if l.holder_id == holder {
                    self.leases.remove(&key);
                    true
                } else {
                    false
                }
            },
            None => false,
        }
    }
}

/// A renewal presenting a token other than the stored lease's always fails
/// and changes nothing: with `StaleToken` while a lease is stored, with
/// `Expired` when none is.
pub proof fn lemma_stale_token_renewal_fails(
    t: LeaseTable,
    key: u64,
    holder: u64,
    token: u64,
    ttl: u64,
    now: u64,
)
    requires
        !(t.leases.contains_key(key) && t.leases[key].fencing_token == token),
    ensures
        renew_step(t, key, holder, token, ttl, now).0 == t,
        renew_step(t, key, holder, token, ttl, now).1 == Err::<Lease, LeaseError>(
            if t.leases.contains_key(key) {
                LeaseError::StaleToken
            } else {
                LeaseError::Expired
            },
        ),
{
}

/// A grant that opens a new tenure carries a fencing token larger than every
/// token stored before it, so every earlier token is stale for that key from
/// then on.
pub proof fn lemma_fresh_grant_fences_out(t: LeaseTable, key: u64, holder: u64, ttl: u64, now: u64)
    requires
        t.wf(),
        t.live_lease(key, now) is None,
        now + ttl <= u64::MAX,
        t.next_token < u64::MAX,
    ensures
        ({
            let (t2, r) = grant_step(t, key, holder, ttl, now);
            &&& r is Ok
            &&& t2.wf()
            &&& forall|k: u64|
                #![trigger t.leases[k]]
                t.leases.contains_key(k) ==> t.leases[k].fencing_token < r->Ok_0.fencing_token
            &&& forall|old_token: u64, h: u64, ttl2: u64, now2: u64|
                old_token < r->Ok_0.fencing_token ==> #[trigger] renew_step(
                    t2,
                    key,
                    h,
                    old_token,
                    ttl2,
                    now2,
                ).1 == Err::<Lease, LeaseError>(LeaseError::StaleToken)
        }),
{
    let (t2, r) = grant_step(t, key, holder, ttl, now);
    assert(t2.leases[key] == r->Ok_0);
    assert forall|k: u64| #![trigger t2.leases[k]] t2.leases.contains_key(k) implies {
        &&& t2.leases[k].resource_key == k
        &&& t2.leases[k].fencing_token < t2.next_token
        &&& t2.leases[k].term_id == t2.leases[k].fencing_token
    } by {
        if k != key {
            assert(t.leases[k] == t2.leases[k]);
        }
    }
}

/// Re-granting to the holder of the live lease never gives `AlreadyHeld`:
/// it keeps term and token, never moves the expiry earlier, and leaves that
/// holder with a live lease, so the next re-grant is again a renewal.
pub proof fn lemma_regrant_is_renewal(t: LeaseTable, key: u64, holder: u64, ttl: u64, now: u64)
    requires
        t.wf(),
        t.live_lease(key, now) matches Some(l) && l.holder_id == holder,
        now + ttl <= u64::MAX,
    ensures
        ({
            let l = t.leases[key];
            let (t2, r) = grant_step(t, key, holder, ttl, now);
            &&& r matches Ok(n) && n.fencing_token == l.fencing_token && n.term_id == l.term_id
                && n.holder_id == holder && n.expire_at >= l.expire_at && n.expire_at >= now + ttl
            &&& t2.live_lease(key, now) == Some(r->Ok_0)
            &&& t2.next_token == t.next_token
            &&& t2.wf()
        }),
{
    let (t2, r) = grant_step(t, key, holder, ttl, now);
    assert(t2.leases[key] == r->Ok_0);
    assert forall|k: u64| #![trigger t2.leases[k]] t2.leases.contains_key(k) implies {
        &&& t2.leases[k].resource_key == k
        &&& t2.leases[k].fencing_token < t2.next_token
        &&& t2.leases[k].term_id == t2.leases[k].fencing_token
    } by {
        if k != key {
            assert(t.leases[k] == t2.leases[k]);
        }
    }
}

} // verus!
