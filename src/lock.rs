use std::collections::HashMap;
use vstd::prelude::*;

verus! {

broadcast use vstd::std_specs::hash::group_hash_axioms;

/// Proof of holding a named lock. `fence` numbers the holder's tenure; a
/// refresh by the same owner keeps it and moves `acquired_at`.
#[derive(Clone, Copy, Debug, PartialEq, Eq, Structural)]
pub struct LockToken {
    pub lock_name: u64,
    pub owner_id: u64,
    pub acquired_at: u64,
    pub ttl: u64,
    pub fence: u64,
}

impl LockToken {
    /// A lock is held up to and including `acquired_at + ttl`.
    pub open spec fn live_at(self, now: u64) -> bool {
        now <= self.acquired_at + self.ttl
    }

    pub fn is_live(&self, now: u64) -> (r: bool)
        requires
            self.acquired_at + self.ttl <= u64::MAX,
        ensures
            r == self.live_at(now),
    {
        now <= self.acquired_at + self.ttl
    }
}

#[derive(Clone, Copy, Debug, PartialEq, Eq, Structural)]
pub enum LockError {
    /// The lock is held by another owner whose token has not lapsed.
    Conflict,
    /// The presented token is not the current holder's.
    NotOwner,
    /// The presented token is the stored one, but it has lapsed.
    Expired,
}

/// Abstract state of the lock table: the stored token of each lock name and
/// the next tenure number.
pub struct LockTable {
    pub locks: Map<u64, LockToken>,
    pub next_fence: u64,
}

impl LockTable {
    pub open spec fn wf(self) -> bool {
        forall|k: u64|
            #![trigger self.locks[k]]
            self.locks.contains_key(k) ==> {
                &&& self.locks[k].lock_name == k
                &&& self.locks[k].fence < self.next_fence
                &&& self.locks[k].acquired_at + self.locks[k].ttl <= u64::MAX
            }
    }

    /// The unexpired token of `name` at time `now`, if any.
    pub open spec fn holder(self, name: u64, now: u64) -> Option<LockToken> {
        if self.locks.contains_key(name) && self.locks[name].live_at(now) {
            Some(self.locks[name])
        } else {
            None
        }
    }
}

/// Effect of `acquire`: a live lock of another owner refuses with
/// `Conflict`; the same owner refreshes its tenure; otherwise a new tenure
/// starts.
pub open spec fn acquire_step(t: LockTable, name: u64, owner: u64, ttl: u64, now: u64) -> (
    LockTable,
    Result<LockToken, LockError>,
) {
    match t.holder(name, now) {
        Some(h) => if h.owner_id == owner {
            let n = LockToken { acquired_at: now, ttl: ttl, ..h };
            (LockTable { locks: t.locks.insert(name, n), ..t }, Ok(n))
        } else {
            (t, Err(LockError::Conflict))
        },
        None => {
            let n = LockToken {
                lock_name: name,
                owner_id: owner,
                acquired_at: now,
                ttl: ttl,
                fence: t.next_fence,
            };
            (
                LockTable { locks: t.locks.insert(name, n), next_fence: (t.next_fence + 1) as u64 },
                Ok(n),
            )
        },
    }
}

/// Effect of `release`: only the stored token itself releases the lock,
/// and only while it is live.
pub open spec fn release_step(t: LockTable, name: u64, token: LockToken, now: u64) -> (
    LockTable,
    Result<(), LockError>,
) {
    if !t.locks.contains_key(name) || t.locks[name] != token {
        (t, Err(LockError::NotOwner))
    } else if !token.live_at(now) {
        (t, Err(LockError::Expired))
    } else {
        (LockTable { locks: t.locks.remove(name), ..t }, Ok(()))
    }
}

/// Named, time-bounded mutual exclusion. A crashed owner's lock lapses on
/// its own once its ttl has passed.
pub struct LockManager {
    locks: HashMap<u64, LockToken>,
    next_fence: u64,
}

impl View for LockManager {
    type V = LockTable;

    closed spec fn view(&self) -> LockTable {
        LockTable { locks: self.locks@, next_fence: self.next_fence }
    }
}

impl LockManager {
    pub fn new() -> (r: Self)
        ensures
            r@.wf(),
            r@.locks.is_empty(),
            r@.next_fence == 0,
    {
        let r = LockManager { locks: HashMap::new(), next_fence: 0 };
        proof {
            assert(r@.locks =~= Map::<u64, LockToken>::empty());
        }
        r
    }

    /// The tenure number that the next fresh acquisition will carry.
    pub fn next_fence(&self) -> (r: u64)
        ensures
            r == self@.next_fence,
    {
        self.next_fence
    }

    /// The stored token of `name`, live or lapsed.
    fn stored(&self, name: u64) -> (r: Option<LockToken>)
        ensures
            r == (if self@.locks.contains_key(name) {
                Some(self@.locks[name])
            } else {
                None
            }),
    {
        match self.locks.get(&name) {
            Some(h) => Some(*h),
            None => None,
        }
    }

    /// The current holder's token of `name` at time `now`, if any.
    pub fn holder(&self, name: u64, now: u64) -> (r: Option<LockToken>)
        requires
            self@.wf(),
        ensures
            r == self@.holder(name, now),
    {
        match self.locks.get(&name) {
            Some(h) => if h.is_live(now) {
                Some(*h)
            } else {
                None
            },
            None => None,
        }
    }

    /// Takes lock `name` for `owner` until `now + ttl`. The same owner may
    /// take it again before expiry to refresh it.
    pub fn acquire(&mut self, name: u64, owner: u64, ttl: u64, now: u64) -> (r: Result<
        LockToken,
        LockError,
    >)
        requires
            old(self)@.wf(),
            now + ttl <= u64::MAX,
            old(self)@.next_fence < u64::MAX,
        ensures
            final(self)@.wf(),
            (final(self)@, r) == acquire_step(old(self)@, name, owner, ttl, now),
    {
        match self.holder(name, now) {
            Some(h) => {
                if h.owner_id == owner {
                    let n = LockToken { acquired_at: now, ttl: ttl, ..h };
                    self.locks.insert(name, n);
                    Ok(n)
                } else {
                    Err(LockError::Conflict)
                }
            },
            None => {
                let n = LockToken {
                    lock_name: name,
                    owner_id: owner,
                    acquired_at: now,
                    ttl: ttl,
                    fence: self.next_fence,
                };
                self.locks.insert(name, n);
                self.next_fence = self.next_fence + 1;
                Ok(n)
            },
        }
    }

    /// Releases lock `name` on presentation of its current token. Any other
    /// token, such as a delayed release from an earlier holder, gives
    /// `NotOwner`.
    pub fn release(&mut self, name: u64, token: LockToken, now: u64) -> (r: Result<(), LockError>)
        requires
            old(self)@.wf(),
        ensures
            final(self)@.wf(),
            (final(self)@, r) == release_step(old(self)@, name, token, now),
    {
        match self.stored(name) {
            None => Err(LockError::NotOwner),
            Some(h) => {
                if h != token {
                    Err(LockError::NotOwner)
                } else if !h.is_live(now) {
                    Err(LockError::Expired)
                } else {
                    self.locks.remove(&name);
                    Ok(())
                }
            },
        }
    }
}

/// A release presenting a token other than the stored one always fails with
/// `NotOwner` and leaves the table as it was.
pub proof fn lemma_mismatched_release_fails(t: LockTable, name: u64, token: LockToken, now: u64)
    requires
        !(t.locks.contains_key(name) && t.locks[name] == token),
    ensures
        release_step(t, name, token, now) == (t, Err::<(), LockError>(LockError::NotOwner)),
{
}

/// Two owners contending for one lock, free or held by one of them, within
/// the ttl the first asks for: exactly one of them succeeds and the other
/// gets `Conflict`; the winner holds the lock afterwards.
pub proof fn lemma_mutual_exclusion(
    t: LockTable,
    name: u64,
    first: u64,
    second: u64,
    ttl1: u64,
    ttl2: u64,
    now1: u64,
    now2: u64,
)
    requires
        t.wf(),
        first != second,
        t.holder(name, now1) matches Some(h) ==> h.owner_id == first || h.owner_id == second,
        now1 <= now2,
        now2 <= now1 + ttl1,
        now2 + ttl2 <= u64::MAX,
    ensures
        ({
            let (t1, r1) = acquire_step(t, name, first, ttl1, now1);
            let (t2, r2) = acquire_step(t1, name, second, ttl2, now2);
            ||| {
                &&& r2 == Err::<LockToken, LockError>(LockError::Conflict)
                &&& r1 matches Ok(tok) && tok.owner_id == first && t2.holder(name, now2) == Some(
                    tok,
                )
            }
            ||| {
                &&& r1 == Err::<LockToken, LockError>(LockError::Conflict)
                &&& r2 matches Ok(tok) && tok.owner_id == second && t2.holder(name, now2) == Some(
                    tok,
                )
            }
        }),
{
    let (t1, r1) = acquire_step(t, name, first, ttl1, now1);
    if r1 is Ok {
        assert(t1.locks[name] == r1->Ok_0);
    } else {
        let (t2, r2) = acquire_step(t1, name, second, ttl2, now2);
        assert(t2.locks[name] == r2->Ok_0);
    }
}

/// The lock holder of a name changes only through that name: acquiring or
/// releasing another name leaves it untouched.
pub proof fn lemma_locks_independent(
    t: LockTable,
    name: u64,
    other: u64,
    owner: u64,
    ttl: u64,
    now: u64,
    token: LockToken,
    at: u64,
)
    requires
        name != other,
    ensures
        acquire_step(t, other, owner, ttl, now).0.holder(name, at) == t.holder(name, at),
        release_step(t, other, token, now).0.holder(name, at) == t.holder(name, at),
{
}

} // verus!
