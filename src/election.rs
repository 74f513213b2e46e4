use vstd::prelude::*;

verus! {

/// Value stored under the leadership key.
#[derive(Clone, Copy, Debug, PartialEq, Eq, Structural)]
pub struct LeaderRecord {
    pub leader_id: u64,
    pub term: u64,
    pub expire_at: u64,
    /// Set when the leader gave the key up voluntarily.
    pub resigned: bool,
}

impl LeaderRecord {
    /// Nobody holds leadership under this record at `now`.
    pub open spec fn vacant_at(self, now: u64) -> bool {
        self.resigned || now > self.expire_at
    }
}

/// The leadership key at `now` is free to claim.
pub open spec fn key_vacant(rec: Option<LeaderRecord>, now: u64) -> bool {
    match rec {
        Some(r) => r.vacant_at(now),
        None => true,
    }
}

/// The term recorded under the key, zero when nothing was ever written.
pub open spec fn key_term(rec: Option<LeaderRecord>) -> u64 {
    match rec {
        Some(r) => r.term,
        None => 0,
    }
}

/// A write that the election protocol may make over `expected`: either a
/// new, higher term, or the same holder keeping its term.
pub open spec fn valid_successor(expected: Option<LeaderRecord>, new: LeaderRecord) -> bool {
    match expected {
        Some(e) => new.term > e.term || (new.term == e.term && new.leader_id == e.leader_id),
        None => true,
    }
}

/// Abstract state of the leadership key: what it holds, and (ghost) which
/// process won each term that was ever installed.
pub struct LeaderKey {
    pub record: Option<LeaderRecord>,
    pub winners: Map<u64, u64>,
}

impl LeaderKey {
    pub open spec fn wf(self) -> bool {
        match self.record {
            Some(r) => {
                &&& self.winners.contains_key(r.term)
                &&& self.winners[r.term] == r.leader_id
                &&& forall|t: u64| #[trigger] self.winners.contains_key(t) ==> t <= r.term
            },
            None => self.winners.is_empty(),
        }
    }
}

/// The leadership key on the backend store. It changes only by
/// compare-and-swap, which is what serializes competing campaigns.
pub struct LeaderStore {
    record: Option<LeaderRecord>,
    winners: Ghost<Map<u64, u64>>,
}

impl View for LeaderStore {
    type V = LeaderKey;

    closed spec fn view(&self) -> LeaderKey {
        LeaderKey { record: self.record, winners: self.winners@ }
    }
}

fn same_record(a: &Option<LeaderRecord>, b: &Option<LeaderRecord>) -> (r: bool)
    ensures
        r == (*a == *b),
{
    match (a, b) {
        (Some(x), Some(y)) => *x == *y,
        (None, None) => true,
        _ => false,
    }
}

impl LeaderStore {
    pub fn new() -> (r: Self)
        ensures
            r@.wf(),
            r@.record is None,
    {
        LeaderStore { record: None, winners: Ghost(Map::empty()) }
    }

    pub fn get(&self) -> (r: Option<LeaderRecord>)
        ensures
            r == self@.record,
    {
        self.record
    }

    /// Writes `new` if the key still holds `expected`; returns whether it
    /// did. A term is won by whoever first installs it.
    pub fn compare_and_swap(&mut self, expected: Option<LeaderRecord>, new: LeaderRecord) -> (r:
        bool)
        requires
            old(self)@.wf(),
            valid_successor(expected, new),
        ensures
            final(self)@.wf(),
            r == (old(self)@.record == expected),
            final(self)@.record == (if r {
                Some(new)
            } else {
                old(self)@.record
            }),
            final(self)@.winners == (if r && !old(self)@.winners.contains_key(new.term) {
                old(self)@.winners.insert(new.term, new.leader_id)
            } else {
                old(self)@.winners
            }),
    {
        if same_record(&self.record, &expected) {
            proof {
                if !self.winners@.contains_key(new.term) {
                    self.winners@ = self.winners@.insert(new.term, new.leader_id);
                }
            }
            self.record = Some(new);
            true
        } else {
            false
        }
    }
}

#[derive(Clone, Copy, Debug, PartialEq, Eq, Structural)]
pub enum ElectionState {
    Candidate,
    Leader,
    Follower,
}

/// The leader a process knows of.
#[derive(Clone, Copy, Debug, PartialEq, Eq, Structural)]
pub struct LeaderInfo {
    pub leader_id: u64,
    pub term: u64,
}

/// Notifications published to subscribers of the election.
#[derive(Clone, Copy, Debug, PartialEq, Eq, Structural)]
pub enum LeaderEvent {
    BecameLeader(u64),
    LostLeadership,
    LeaderChanged(u64, u64),
}

/// Lease ttl and renewal interval of the leadership lease.
#[derive(Clone, Copy, Debug, PartialEq, Eq, Structural)]
pub struct ElectionConfig {
    pub lease_ttl: u64,
    pub renew_interval: u64,
}

impl ElectionConfig {
    /// Renewal must run often enough that one missed renewal does not lose
    /// the lease: at least three renewals fit in one ttl.
    pub open spec fn valid(self) -> bool {
        0 < self.renew_interval && 3 * self.renew_interval <= self.lease_ttl
    }

    /// A configuration, if the interval is positive and at most a third of
    /// the ttl.
    pub fn new(lease_ttl: u64, renew_interval: u64) -> (r: Option<ElectionConfig>)
        ensures
            r matches Some(c) ==> c.lease_ttl == lease_ttl && c.renew_interval == renew_interval,
            r is Some <==> (ElectionConfig { lease_ttl, renew_interval }).valid(),
    {
        if renew_interval > 0 && renew_interval <= lease_ttl / 3 {
            Some(ElectionConfig { lease_ttl, renew_interval })
        } else {
            None
        }
    }
}

/// Abstract state of one process's elector.
pub struct ElectorView {
    pub id: u64,
    pub lease_ttl: u64,
    pub state: ElectionState,
    pub leader: Option<LeaderInfo>,
}

impl ElectorView {
    /// A process in `Leader` state leads a term that the key records as
    /// won by this process.
    pub open spec fn consistent_with(self, k: LeaderKey) -> bool {
        self.state is Leader ==> {
            &&& self.leader matches Some(li)
            &&& li.leader_id == self.id
            &&& k.winners.contains_key(li.term)
            &&& k.winners[li.term] == self.id
        }
    }

    pub open spec fn leads_term(self, term: u64) -> bool {
        &&& self.state is Leader
        &&& self.leader matches Some(li) && li.term == term
    }
}

/// The record a successful campaign over `observed` writes.
pub open spec fn claim_record(e: ElectorView, observed: Option<LeaderRecord>, now: u64) -> LeaderRecord {
    LeaderRecord {
        leader_id: e.id,
        term: (key_term(observed) + 1) as u64,
        expire_at: (now + e.lease_ttl) as u64,
        resigned: false,
    }
}

/// A non-leader looking at the key: it follows a live holder and reports a
/// change of leader, or turns candidate when the key is vacant.
pub open spec fn follow_step(e: ElectorView, cur: Option<LeaderRecord>, now: u64) -> (
    ElectorView,
    Option<LeaderEvent>,
) {
    match cur {
        Some(r) => if !r.vacant_at(now) {
            let li = LeaderInfo { leader_id: r.leader_id, term: r.term };
            (
                ElectorView { state: ElectionState::Follower, leader: Some(li), ..e },
                if e.leader == Some(li) {
                    None
                } else {
                    Some(LeaderEvent::LeaderChanged(r.leader_id, r.term))
                },
            )
        } else {
            (ElectorView { state: ElectionState::Candidate, leader: None, ..e }, None)
        },
        None => (ElectorView { state: ElectionState::Candidate, leader: None, ..e }, None),
    }
}

/// The elector demoted, with the notification that precedes anything else
/// it does.
pub open spec fn demoted(e: ElectorView) -> (ElectorView, Option<LeaderEvent>) {
    (
        ElectorView { state: ElectionState::Candidate, leader: None, ..e },
        Some(LeaderEvent::LostLeadership),
    )
}

/// The key holds this leader's own unresigned, unexpired record of its term.
pub open spec fn holds_key(e: ElectorView, cur: Option<LeaderRecord>, now: u64) -> bool {
    &&& cur matches Some(r)
    &&& e.leader matches Some(li)
    &&& cur->Some_0.leader_id == e.id
    &&& cur->Some_0.term == e.leader->Some_0.term
    &&& !cur->Some_0.vacant_at(now)
}

/// Effect of a campaign over the record `observed`: a vacant key is claimed
/// for the next term by compare-and-swap; when the key does not hold
/// `observed` any more, or was not vacant, the elector follows what the key
/// holds now.
pub open spec fn campaign_step(
    e: ElectorView,
    cur: Option<LeaderRecord>,
    observed: Option<LeaderRecord>,
    now: u64,
) -> (ElectorView, Option<LeaderRecord>, Option<LeaderEvent>) {
    if e.state is Leader {
        (e, cur, None)
    } else if key_vacant(observed, now) && key_term(observed) < u64::MAX && cur == observed {
        let n = claim_record(e, observed, now);
        (
            ElectorView {
                state: ElectionState::Leader,
                leader: Some(LeaderInfo { leader_id: e.id, term: n.term }),
                ..e
            },
            Some(n),
            Some(LeaderEvent::BecameLeader(n.term)),
        )
    } else {
        let (e2, ev) = follow_step(e, cur, now);
        (e2, cur, ev)
    }
}

/// Effect of a renewal: a leader still holding the key pushes its expiry to
/// `now + ttl` (never earlier); a leader that lost the key is demoted.
pub open spec fn renew_step(e: ElectorView, cur: Option<LeaderRecord>, now: u64) -> (
    ElectorView,
    Option<LeaderRecord>,
    Option<LeaderEvent>,
) {
    if !(e.state is Leader) {
        (e, cur, None)
    } else if holds_key(e, cur, now) {
        let r = cur->Some_0;
        let exp = if now + e.lease_ttl > r.expire_at {
            (now + e.lease_ttl) as u64
        } else {
            r.expire_at
        };
        (e, Some(LeaderRecord { expire_at: exp, ..r }), None)
    } else {
        let (e2, ev) = demoted(e);
        (e2, cur, ev)
    }
}

/// Effect of resigning: a leader marks its record resigned if the key still
/// holds it, and steps down locally in any case.
pub open spec fn resign_step(e: ElectorView, cur: Option<LeaderRecord>, now: u64) -> (
    ElectorView,
    Option<LeaderRecord>,
    Option<LeaderEvent>,
) {
    if !(e.state is Leader) {
        (e, cur, None)
    } else {
        let (e2, ev) = demoted(e);
        if holds_key(e, cur, now) {
            (e2, Some(LeaderRecord { resigned: true, ..cur->Some_0 }), ev)
        } else {
            (e2, cur, ev)
        }
    }
}

/// Effect of watching the key: a leader that no longer holds it is demoted;
/// any other process follows it.
pub open spec fn observe_step(e: ElectorView, cur: Option<LeaderRecord>, now: u64) -> (
    ElectorView,
    Option<LeaderEvent>,
) {
    if e.state is Leader {
        if holds_key(e, cur, now) {
            (e, None)
        } else {
            demoted(e)
        }
    } else {
        follow_step(e, cur, now)
    }
}

/// One process's participant in the election.
pub struct Elector {
    id: u64,
    lease_ttl: u64,
    state: ElectionState,
    leader: Option<LeaderInfo>,
}

impl View for Elector {
    type V = ElectorView;

    closed spec fn view(&self) -> ElectorView {
        ElectorView { id: self.id, lease_ttl: self.lease_ttl, state: self.state, leader: self.leader }
    }
}

impl Elector {
    pub fn new(id: u64, config: ElectionConfig) -> (r: Self)
        ensures
            r@.id == id,
            r@.lease_ttl == config.lease_ttl,
            r@.state is Candidate,
            r@.leader is None,
    {
        Elector { id, lease_ttl: config.lease_ttl, state: ElectionState::Candidate, leader: None }
    }

    pub fn id(&self) -> (r: u64)
        ensures
            r == self@.id,
    {
        self.id
    }

    pub fn state(&self) -> (r: ElectionState)
        ensures
            r == self@.state,
    {
        self.state
    }

    pub fn leader(&self) -> (r: Option<LeaderInfo>)
        ensures
            r == self@.leader,
    {
        self.leader
    }

    pub fn is_leader(&self) -> (r: bool)
        ensures
            r == self@.state is Leader,
    {
        match self.state {
            ElectionState::Leader => true,
            _ => false,
        }
    }

    fn follow(&mut self, cur: Option<LeaderRecord>, now: u64) -> (r: Option<LeaderEvent>)
        ensures
            (final(self)@, r) == follow_step(old(self)@, cur, now),
    {
        match cur {
            Some(rec) => {
                if rec.resigned || now > rec.expire_at {
                    self.state = ElectionState::Candidate;
                    self.leader = None;
                    None
                } else {
                    let li = LeaderInfo { leader_id: rec.leader_id, term: rec.term };
                    let changed = match self.leader {
                        Some(known) => known != li,
                        None => true,
                    };
                    self.state = ElectionState::Follower;
                    self.leader = Some(li);
                    if changed {
                        Some(LeaderEvent::LeaderChanged(rec.leader_id, rec.term))
                    } else {
                        None
                    }
                }
            },
            None => {
                self.state = ElectionState::Candidate;
                self.leader = None;
                None
            },
        }
    }

    fn demote(&mut self) -> (r: Option<LeaderEvent>)
        ensures
            (final(self)@, r) == demoted(old(self)@),
    {
        self.state = ElectionState::Candidate;
        self.leader = None;
        Some(LeaderEvent::LostLeadership)
    }

    fn holds(&self, cur: Option<LeaderRecord>, now: u64) -> (r: bool)
        ensures
            r == holds_key(self@, cur, now),
    {
        match (cur, self.leader) {
            (Some(rec), Some(li)) => rec.leader_id == self.id && rec.term == li.term
                && !rec.resigned && now <= rec.expire_at,
            _ => false,
        }
    }

    /// Campaigns over `observed`, the record this process last read from the
    /// key: if it was vacant, tries to install `(self, term + 1)` by
    /// compare-and-swap against it. Competing campaigns over one observation
    /// leave exactly one winner.
    pub fn campaign(
        &mut self,
        store: &mut LeaderStore,
        observed: Option<LeaderRecord>,
        now: u64,
    ) -> (r: Option<LeaderEvent>)
        requires
            old(store)@.wf(),
            old(self)@.consistent_with(old(store)@),
            now + old(self)@.lease_ttl <= u64::MAX,
        ensures
            final(store)@.wf(),
            final(self)@.consistent_with(final(store)@),
            old(store)@.winners.submap_of(final(store)@.winners),
            (final(self)@, final(store)@.record, r) == campaign_step(
                old(self)@,
                old(store)@.record,
                observed,
                now,
            ),
    {
        if self.is_leader() {
            return None;
        }
        let vacant = match observed {
            Some(rec) => rec.resigned || now > rec.expire_at,
            None => true,
        };
        let term: u64 = match observed {
            Some(rec) => rec.term,
            None => 0,
        };
        if vacant && term < u64::MAX {
            let n = LeaderRecord {
                leader_id: self.id,
                term: term + 1,
                expire_at: now + self.lease_ttl,
                resigned: false,
            };
            if store.compare_and_swap(observed, n) {
                self.state = ElectionState::Leader;
                self.leader = Some(LeaderInfo { leader_id: self.id, term: n.term });
                return Some(LeaderEvent::BecameLeader(n.term));
            }
        }
        let cur = store.get();
        self.follow(cur, now)
    }

    /// Renews the leadership lease. A leader that finds the key no longer
    /// holding its record is demoted at once and reports `LostLeadership`.
    pub fn renew(&mut self, store: &mut LeaderStore, now: u64) -> (r: Option<LeaderEvent>)
        requires
            old(store)@.wf(),
            old(self)@.consistent_with(old(store)@),
            now + old(self)@.lease_ttl <= u64::MAX,
        ensures
            final(store)@.wf(),
            final(self)@.consistent_with(final(store)@),
            old(store)@.winners.submap_of(final(store)@.winners),
            (final(self)@, final(store)@.record, r) == renew_step(
                old(self)@,
                old(store)@.record,
                now,
            ),
    {
        if !self.is_leader() {
            return None;
        }
        let cur = store.get();
        if self.holds(cur, now) {
            match cur {
                Some(rec) => {
                    let exp: u64 = if now + self.lease_ttl > rec.expire_at {
                        now + self.lease_ttl
                    } else {
                        rec.expire_at
                    };
                    let ok = store.compare_and_swap(cur, LeaderRecord { expire_at: exp, ..rec });
                    proof {
                        assert(ok);
                    }
                    None
                },
                None => None,
            }
        } else {
            self.demote()
        }
    }

    /// Steps down voluntarily, releasing the key if it still holds this
    /// leader's record. Locally this always succeeds.
    pub fn resign(&mut self, store: &mut LeaderStore, now: u64) -> (r: Option<LeaderEvent>)
        requires
            old(store)@.wf(),
            old(self)@.consistent_with(old(store)@),
        ensures
            final(store)@.wf(),
            final(self)@.consistent_with(final(store)@),
            old(store)@.winners.submap_of(final(store)@.winners),
            (final(self)@, final(store)@.record, r) == resign_step(
                old(self)@,
                old(store)@.record,
                now,
            ),
    {
        if !self.is_leader() {
            return None;
        }
        let cur = store.get();
        if self.holds(cur, now) {
            match cur {
                Some(rec) => {
                    let ok = store.compare_and_swap(cur, LeaderRecord { resigned: true, ..rec });
                    proof {
                        assert(ok);
                    }
                },
                None => {},
            }
        }
        self.demote()
    }

    /// Reads the key as a watcher: followers track the current leader, and a
    /// leader that no longer holds the key is demoted.
    pub fn observe(&mut self, store: &LeaderStore, now: u64) -> (r: Option<LeaderEvent>)
        requires
            store@.wf(),
            old(self)@.consistent_with(store@),
        ensures
            final(self)@.consistent_with(store@),
            (final(self)@, r) == observe_step(old(self)@, store@.record, now),
    {
        let cur = store.get();
        if self.is_leader() {
            if self.holds(cur, now) {
                None
            } else {
                self.demote()
            }
        } else {
            self.follow(cur, now)
        }
    }
}

/// Winners of terms are never rewritten, so an elector consistent with the
/// key stays consistent with every later state of it.
pub proof fn lemma_consistency_survives(e: ElectorView, k1: LeaderKey, k2: LeaderKey)
    requires
        e.consistent_with(k1),
        k1.winners.submap_of(k2.winners),
    ensures
        e.consistent_with(k2),
{
    if e.state is Leader {
        let t = e.leader->Some_0.term;
        assert(k2.winners.contains_key(t));
    }
}

/// For any term, at most one process is `Leader` of it: two electors
/// consistent with the same key that lead the same term are one process.
pub proof fn lemma_single_leader_per_term(k: LeaderKey, a: ElectorView, b: ElectorView, term: u64)
    requires
        a.consistent_with(k),
        b.consistent_with(k),
        a.leads_term(term),
        b.leads_term(term),
    ensures
        a.id == b.id,
{
}

/// Campaigns over one shared observation of a vacant key: the first to swap
/// wins the next term, and every later one finds the key changed and does
/// not become leader.
pub proof fn lemma_one_winner_per_observation(
    a: ElectorView,
    b: ElectorView,
    observed: Option<LeaderRecord>,
    now: u64,
)
    requires
        !(a.state is Leader),
        !(b.state is Leader),
        key_vacant(observed, now),
        key_term(observed) < u64::MAX,
        now + a.lease_ttl <= u64::MAX,
    ensures
        ({
            let (a2, k1, _) = campaign_step(a, observed, observed, now);
            let (b2, k2, _) = campaign_step(b, k1, observed, now);
            &&& a2.leads_term((key_term(observed) + 1) as u64)
            &&& !(b2.state is Leader)
            &&& k2 == k1
        }),
{
}

} // verus!
