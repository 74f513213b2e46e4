use vstd::prelude::*;

verus! {

/// Largest window of inter-arrival intervals a detector may keep.
pub const MAX_WINDOW: u64 = 65536;

/// Tuning of the failure detector. Times are in one unit throughout (for
/// instance milliseconds); thresholds are in units of the suspicion score.
#[derive(Clone, Copy, Debug, PartialEq, Eq, Structural)]
pub struct DetectorConfig {
    /// How many recent inter-arrival intervals are kept per peer.
    pub window: u64,
    /// Silence longer than this is maximally suspicious, with or without
    /// history.
    pub grace: u64,
    /// Floor of the spread, so that a perfectly regular stream still
    /// tolerates some jitter.
    pub min_spread: u64,
    /// A live peer turns dead when its suspicion rises above this.
    pub dead_threshold: u64,
    /// A dead peer turns live again only on a heartbeat whose interval scores
    /// below this.
    pub alive_threshold: u64,
}

impl DetectorConfig {
    pub open spec fn valid(self) -> bool {
        &&& 1 <= self.window <= MAX_WINDOW
        &&& self.min_spread >= 1
        &&& self.alive_threshold <= self.dead_threshold
        &&& self.dead_threshold < u64::MAX
    }

    pub fn is_valid(&self) -> (r: bool)
        ensures
            r == self.valid(),
    {
        1 <= self.window && self.window <= MAX_WINDOW && self.min_spread >= 1
            && self.alive_threshold <= self.dead_threshold && self.dead_threshold < u64::MAX
    }
}

pub open spec fn sum(s: Seq<u64>) -> int
    decreases s.len(),
{
    if s.len() == 0 {
        0
    } else {
        sum(s.drop_last()) + s.last()
    }
}

/// Sum of the distances of the elements of `s` from `m`.
pub open spec fn deviation_sum(s: Seq<u64>, m: int) -> int
    decreases s.len(),
{
    if s.len() == 0 {
        0
    } else {
        deviation_sum(s.drop_last(), m) + if s.last() >= m {
            s.last() - m
        } else {
            m - s.last()
        }
    }
}

/// Mean interval, rounded down.
pub open spec fn mean(s: Seq<u64>) -> int
    recommends
        s.len() > 0,
{
    sum(s) / (s.len() as int)
}

/// Mean absolute deviation of the intervals from their mean, but at least
/// `min_spread`.
pub open spec fn spread(s: Seq<u64>, min_spread: u64) -> int
    recommends
        s.len() > 0,
{
    let d = deviation_sum(s, mean(s)) / (s.len() as int);
    if d > min_spread {
        d
    } else {
        min_spread as int
    }
}

/// Suspicion that a silence (or interval) of length `x` signals a failure,
/// given the history `h`: how many spreads `x` lies above the mean interval.
/// Anything beyond the grace period scores the maximum; without history,
/// anything within it scores zero.
pub open spec fn suspicion(h: Seq<u64>, x: u64, c: DetectorConfig) -> u64 {
    if x > c.grace {
        u64::MAX
    } else if h.len() == 0 || x <= mean(h) {
        0
    } else {
        ((x - mean(h)) / spread(h, c.min_spread)) as u64
    }
}

/// The history after recording interval `x`, dropping the oldest interval
/// when the window is full.
pub open spec fn record_interval(h: Seq<u64>, x: u64, window: u64) -> Seq<u64> {
    if h.len() >= window {
        h.subrange(1, h.len() as int).push(x)
    } else {
        h.push(x)
    }
}

#[derive(Clone, Copy, Debug, PartialEq, Eq, Structural)]
pub enum LivenessEvent {
    PeerDead(u64),
    PeerAlive(u64),
}

/// Abstract state of one peer's record.
pub struct PeerView {
    pub peer_id: u64,
    pub last_heartbeat: u64,
    pub history: Seq<u64>,
    pub alive: bool,
}

impl PeerView {
    pub open spec fn wf(self, c: DetectorConfig) -> bool {
        self.history.len() <= c.window
    }
}

/// Time since the last heartbeat, zero for a time before it.
pub open spec fn elapsed(p: PeerView, now: u64) -> u64 {
    if now >= p.last_heartbeat {
        (now - p.last_heartbeat) as u64
    } else {
        0
    }
}

/// Effect of a liveness check at `now`: a live peer whose silence scores
/// above the dead threshold turns dead, once.
pub open spec fn check_step(p: PeerView, now: u64, c: DetectorConfig) -> (
    PeerView,
    Option<LivenessEvent>,
) {
    if p.alive && suspicion(p.history, elapsed(p, now), c) > c.dead_threshold {
        (PeerView { alive: false, ..p }, Some(LivenessEvent::PeerDead(p.peer_id)))
    } else {
        (p, None)
    }
}

/// Effect of a heartbeat at `now`. One older than the last is ignored.
/// Otherwise the interval is scored against the history before it is
/// recorded; a dead peer comes back only if that score is below the alive
/// threshold.
pub open spec fn heartbeat_step(p: PeerView, now: u64, c: DetectorConfig) -> (
    PeerView,
    Option<LivenessEvent>,
) {
    if now < p.last_heartbeat {
        (p, None)
    } else {
        let x = (now - p.last_heartbeat) as u64;
        let back = !p.alive && suspicion(p.history, x, c) < c.alive_threshold;
        let p2 = PeerView {
            last_heartbeat: now,
            history: record_interval(p.history, x, c.window),
            alive: p.alive || back,
            ..p
        };
        (p2, if back {
            Some(LivenessEvent::PeerAlive(p.peer_id))
        } else {
            None
        })
    }
}

proof fn lemma_sum_bound(s: Seq<u64>)
    ensures
        0 <= sum(s) <= s.len() * (u64::MAX as int),
    decreases s.len(),
{
    if s.len() > 0 {
        lemma_sum_bound(s.drop_last());
    }
}

proof fn lemma_deviation_bound(s: Seq<u64>, m: int)
    requires
        0 <= m <= u64::MAX,
    ensures
        0 <= deviation_sum(s, m) <= s.len() * (u64::MAX as int),
    decreases s.len(),
{
    if s.len() > 0 {
        lemma_deviation_bound(s.drop_last(), m);
    }
}

proof fn lemma_mean_bound(s: Seq<u64>)
    requires
        s.len() > 0,
    ensures
        0 <= mean(s) <= u64::MAX,
{
    lemma_sum_bound(s);
    let n = s.len() as int;
    assert(sum(s) / n <= u64::MAX) by (nonlinear_arith)
        requires
            0 <= sum(s) <= n * (u64::MAX as int),
            n > 0,
    ;
    assert(sum(s) / n >= 0) by (nonlinear_arith)
        requires
            0 <= sum(s),
            n > 0,
    ;
}

/// Sum of the intervals of `h`.
fn total(h: &Vec<u64>) -> (r: u128)
    requires
        h@.len() <= MAX_WINDOW,
    ensures
        r == sum(h@),
{
    let mut acc: u128 = 0;
    let mut i: usize = 0;
    while i < h.len()
        invariant
            0 <= i <= h@.len() <= MAX_WINDOW,
            acc == sum(h@.take(i as int)),
        decreases h@.len() - i,
    {
        proof {
            assert(h@.take(i + 1).drop_last() =~= h@.take(i as int));
            lemma_sum_bound(h@.take(i as int));
            assert(i * (u64::MAX as int) + u64::MAX <= u128::MAX) by (nonlinear_arith)
                requires
                    i <= MAX_WINDOW,
            ;
        }
        acc = acc + h[i] as u128;
        i = i + 1;
    }
    proof {
        assert(h@.take(i as int) =~= h@);
    }
    acc
}

/// Sum of the distances of the intervals of `h` from `m`.
fn total_deviation(h: &Vec<u64>, m: u128) -> (r: u128)
    requires
        h@.len() <= MAX_WINDOW,
        m <= u64::MAX,
    ensures
        r == deviation_sum(h@, m as int),
{
    let mut acc: u128 = 0;
    let mut i: usize = 0;
    while i < h.len()
        invariant
            0 <= i <= h@.len() <= MAX_WINDOW,
            m <= u64::MAX,
            acc == deviation_sum(h@.take(i as int), m as int),
        decreases h@.len() - i,
    {
        proof {
            assert(h@.take(i + 1).drop_last() =~= h@.take(i as int));
            lemma_deviation_bound(h@.take(i as int), m as int);
            assert(i * (u64::MAX as int) + u64::MAX <= u128::MAX) by (nonlinear_arith)
                requires
                    i <= MAX_WINDOW,
            ;
        }
        let x = h[i] as u128;
        let d = if x >= m {
            x - m
        } else {
            m - x
        };
        acc = acc + d;
        i = i + 1;
    }
    proof {
        assert(h@.take(i as int) =~= h@);
    }
    acc
}

/// Scores a silence or interval of length `x` against the history `h`.
pub fn score(h: &Vec<u64>, x: u64, c: &DetectorConfig) -> (r: u64)
    requires
        h@.len() <= MAX_WINDOW,
        c.min_spread >= 1,
    ensures
        r == suspicion(h@, x, *c),
{
    if x > c.grace {
        return u64::MAX;
    }
    if h.len() == 0 {
        return 0;
    }
    let n = h.len() as u128;
    let m = total(h) / n;
    proof {
        lemma_mean_bound(h@);
    }
    if (x as u128) <= m {
        return 0;
    }
    let d = total_deviation(h, m) / n;
    let s: u128 = if d > c.min_spread as u128 {
        d
    } else {
        c.min_spread as u128
    };
    let q = (x as u128 - m) / s;
    proof {
        assert(q <= x) by (nonlinear_arith)
            requires
                q == (x - m) / (s as int),
                s >= 1,
                0 <= m < x,
        ;
    }
    q as u64
}

/// Liveness record of one peer: when it was last heard from, the recent
/// inter-arrival intervals, and the alive/dead verdict.
pub struct FailureRecord {
    peer_id: u64,
    last_heartbeat: u64,
    history: Vec<u64>,
    alive: bool,
}

impl View for FailureRecord {
    type V = PeerView;

    closed spec fn view(&self) -> PeerView {
        PeerView {
            peer_id: self.peer_id,
            last_heartbeat: self.last_heartbeat,
            history: self.history@,
            alive: self.alive,
        }
    }
}

impl FailureRecord {
    /// The record created by a peer's first heartbeat: alive, no history.
    pub fn new(peer_id: u64, now: u64) -> (r: Self)
        ensures
            r@ == (PeerView { peer_id, last_heartbeat: now, history: Seq::empty(), alive: true }),
    {
        let r = FailureRecord { peer_id, last_heartbeat: now, history: Vec::new(), alive: true };
        proof {
            assert(r@.history =~= Seq::<u64>::empty());
        }
        r
    }

    pub fn peer_id(&self) -> (r: u64)
        ensures
            r == self@.peer_id,
    {
        self.peer_id
    }

    pub fn is_alive(&self) -> (r: bool)
        ensures
            r == self@.alive,
    {
        self.alive
    }

    pub fn last_heartbeat(&self) -> (r: u64)
        ensures
            r == self@.last_heartbeat,
    {
        self.last_heartbeat
    }

    /// Current suspicion of this peer at `now`.
    pub fn suspicion_at(&self, now: u64, c: &DetectorConfig) -> (r: u64)
        requires
            c.valid(),
            self@.wf(*c),
        ensures
            r == suspicion(self@.history, elapsed(self@, now), *c),
    {
        let e: u64 = if now >= self.last_heartbeat {
            now - self.last_heartbeat
        } else {
            0
        };
        score(&self.history, e, c)
    }

    /// Evaluates the peer at `now`; reports `PeerDead` when it turns dead.
    pub fn check(&mut self, now: u64, c: &DetectorConfig) -> (r: Option<LivenessEvent>)
        requires
            c.valid(),
            old(self)@.wf(*c),
        ensures
            final(self)@.wf(*c),
            (final(self)@, r) == check_step(old(self)@, now, *c),
    {
        if self.alive && self.suspicion_at(now, c) > c.dead_threshold {
            self.alive = false;
            Some(LivenessEvent::PeerDead(self.peer_id))
        } else {
            None
        }
    }

    /// Records a heartbeat at `now`; reports `PeerAlive` when a dead peer
    /// comes back.
    pub fn heartbeat(&mut self, now: u64, c: &DetectorConfig) -> (r: Option<LivenessEvent>)
        requires
            c.valid(),
            old(self)@.wf(*c),
        ensures
            final(self)@.wf(*c),
            (final(self)@, r) == heartbeat_step(old(self)@, now, *c),
    {
        if now < self.last_heartbeat {
            return None;
        }
        let x = now - self.last_heartbeat;
        let back = !self.alive && score(&self.history, x, c) < c.alive_threshold;
        let ghost h0 = self.history@;
        if self.history.len() as u64 >= c.window {
            self.history.remove(0);
            proof {
                assert(self.history@ =~= h0.subrange(1, h0.len() as int));
            }
        }
        self.history.push(x);
        self.last_heartbeat = now;
        if back {
            self.alive = true;
            Some(LivenessEvent::PeerAlive(self.peer_id))
        } else {
            None
        }
    }
}

/// Abstract state of a detector: one record per peer, peers distinct.
pub open spec fn peers_distinct(s: Seq<PeerView>) -> bool {
    forall|i: int, j: int|
        0 <= i < s.len() && 0 <= j < s.len() && i != j ==> #[trigger] s[i].peer_id
            != #[trigger] s[j].peer_id
}

/// Liveness tracking of all peers heard from. It only detects: what to do
/// about a dead peer is up to whoever receives the events.
pub struct FailureDetector {
    config: DetectorConfig,
    peers: Vec<FailureRecord>,
}

impl FailureDetector {
    pub closed spec fn config_spec(&self) -> DetectorConfig {
        self.config
    }

    /// The records of all peers heard from, in order of first contact.
    pub closed spec fn peers_spec(&self) -> Seq<PeerView> {
        self.peers@.map_values(|r: FailureRecord| r@)
    }

    pub open spec fn wf(&self) -> bool {
        &&& self.config_spec().valid()
        &&& peers_distinct(self.peers_spec())
        &&& forall|i: int|
            0 <= i < self.peers_spec().len() ==> #[trigger] self.peers_spec()[i].wf(
                self.config_spec(),
            )
    }

    /// A detector with no peers, if the configuration is valid.
    pub fn new(config: DetectorConfig) -> (r: Option<Self>)
        ensures
            r is Some <==> config.valid(),
            r matches Some(d) ==> d.wf() && d.config_spec() == config && d.peers_spec().len()
                == 0,
    {
        if config.is_valid() {
            let d = FailureDetector { config, peers: Vec::new() };
            proof {
                assert(d.peers_spec().len() == 0);
            }
            Some(d)
        } else {
            None
        }
    }

    pub fn len(&self) -> (r: usize)
        ensures
            r == self.peers_spec().len(),
    {
        self.peers.len()
    }

    /// Position of `peer_id`'s record, if it has one.
    fn position(&self, peer_id: u64) -> (r: Option<usize>)
        ensures
            r matches Some(i) ==> i < self.peers_spec().len() && self.peers_spec()[i as int].peer_id
                == peer_id,
            r is None ==> forall|i: int|
                0 <= i < self.peers_spec().len() ==> #[trigger] self.peers_spec()[i].peer_id
                    != peer_id,
    {
        let mut i: usize = 0;
        while i < self.peers.len()
            invariant
                0 <= i <= self.peers@.len(),
                forall|j: int|
                    0 <= j < i ==> #[trigger] self.peers_spec()[j].peer_id != peer_id,
            decreases self.peers@.len() - i,
        {
            if self.peers[i].peer_id() == peer_id {
                return Some(i);
            }
            i = i + 1;
        }
        None
    }

    /// The record of `peer_id`, if the peer was ever heard from.
    pub open spec fn record_of(&self, peer_id: u64) -> Option<PeerView> {
        if exists|i: int| 0 <= i < self.peers_spec().len() && self.peers_spec()[i].peer_id == peer_id {
            let i = choose|i: int|
                0 <= i < self.peers_spec().len() && self.peers_spec()[i].peer_id == peer_id;
            Some(self.peers_spec()[i])
        } else {
            None
        }
    }

    /// Whether `peer_id` is currently judged alive; `None` for a peer never
    /// heard from.
    pub fn is_alive(&self, peer_id: u64) -> (r: Option<bool>)
        requires
            self.wf(),
        ensures
            r == (match self.record_of(peer_id) {
                Some(p) => Some(p.alive),
                None => None,
            }),
    {
        match self.position(peer_id) {
            Some(i) => Some(self.peers[i].is_alive()),
            None => None,
        }
    }

    /// Feeds a heartbeat of `peer_id` at `now`. The first heartbeat of a
    /// peer registers it as alive.
    pub fn on_heartbeat(&mut self, peer_id: u64, now: u64) -> (r: Option<LivenessEvent>)
        requires
            old(self).wf(),
        ensures
            final(self).wf(),
            final(self).config_spec() == old(self).config_spec(),
            r == (match old(self).record_of(peer_id) {
                Some(p) => heartbeat_step(p, now, old(self).config_spec()).1,
                None => None,
            }),
            final(self).record_of(peer_id) == Some(
                match old(self).record_of(peer_id) {
                    Some(p) => heartbeat_step(p, now, old(self).config_spec()).0,
                    None => PeerView {
                        peer_id,
                        last_heartbeat: now,
                        history: Seq::empty(),
                        alive: true,
                    },
                },
            ),
            forall|other: u64|
                other != peer_id ==> final(self).record_of(other) == old(self).record_of(other),
    {
        let c = self.config;
        match self.position(peer_id) {
            Some(i) => {
                let ghost before = self.peers_spec();
                let mut rec = self.peers.remove(i);
                proof {
                    assert(rec@ == before[i as int]);
                }
                let r = rec.heartbeat(now, &c);
                self.peers.insert(i, rec);
                proof {
                    let after = self.peers_spec();
                    assert(after =~= before.update(i as int, rec@));
                    assert(before[i as int].peer_id == peer_id);
                    assert(after[i as int].peer_id == peer_id);
                    assert(old(self).record_of(peer_id) == Some(before[i as int]));
                    assert(self.record_of(peer_id) == Some(after[i as int]));
                    assert forall|other: u64| other != peer_id implies self.record_of(other)
                        == old(self).record_of(other) by {
                        if exists|j: int| 0 <= j < before.len() && before[j].peer_id == other {
                            let j = choose|j: int|
                                0 <= j < before.len() && before[j].peer_id == other;
                            assert(after[j] == before[j]);
                            assert(self.record_of(other) == Some(after[j]));
                        } else {
                            assert forall|j: int| 0 <= j < after.len() implies after[j].peer_id
                                != other by {
                                if j != i {
                                    assert(after[j] == before[j]);
                                }
                            }
                        }
                    }
                }
                r
            },
            None => {
                let ghost before = self.peers_spec();
                let rec = FailureRecord::new(peer_id, now);
                self.peers.push(rec);
                proof {
                    let after = self.peers_spec();
                    assert(after =~= before.push(rec@));
                    let n = before.len() as int;
                    assert(after[n].peer_id == peer_id);
                    assert(self.record_of(peer_id) == Some(after[n]));
                    assert forall|other: u64| other != peer_id implies self.record_of(other)
                        == old(self).record_of(other) by {
                        if exists|j: int| 0 <= j < before.len() && before[j].peer_id == other {
                            let j = choose|j: int|
                                0 <= j < before.len() && before[j].peer_id == other;
                            assert(after[j] == before[j]);
                            assert(self.record_of(other) == Some(after[j]));
                        } else {
                            assert forall|j: int| 0 <= j < after.len() implies after[j].peer_id
                                != other by {
                                if j < n {
                                    assert(after[j] == before[j]);
                                }
                            }
                        }
                    }
                }
                None
            },
        }
    }

    /// Evaluates every peer at `now` and returns the `PeerDead` events of
    /// those that turned dead, in order of first contact.
    pub fn check_all(&mut self, now: u64) -> (r: Vec<LivenessEvent>)
        requires
            old(self).wf(),
        ensures
            final(self).wf(),
            final(self).config_spec() == old(self).config_spec(),
            final(self).peers_spec().len() == old(self).peers_spec().len(),
            forall|i: int|
                0 <= i < old(self).peers_spec().len() ==> #[trigger] final(self).peers_spec()[i]
                    == check_step(old(self).peers_spec()[i], now, old(self).config_spec()).0,
            r@ == dead_events(old(self).peers_spec(), now, old(self).config_spec()),
    {
        let c = self.config;
        let ghost start = self.peers_spec();
        let mut events: Vec<LivenessEvent> = Vec::new();
        let mut i: usize = 0;
        while i < self.peers.len()
            invariant
                c == self.config_spec(),
                c.valid(),
                0 <= i <= self.peers_spec().len(),
                self.peers_spec().len() == start.len(),
                forall|j: int|
                    0 <= j < i ==> #[trigger] self.peers_spec()[j] == check_step(
                        start[j],
                        now,
                        c,
                    ).0,
                forall|j: int| i <= j < start.len() ==> #[trigger] self.peers_spec()[j] == start[j],
                forall|j: int| 0 <= j < start.len() ==> #[trigger] start[j].wf(c),
                peers_distinct(start),
                events@ == dead_events(start.take(i as int), now, c),
            decreases start.len() - i,
        {
            let ghost before = self.peers_spec();
            let ghost vec_before = self.peers@;
            let mut rec = self.peers.remove(i);
            proof {
                assert(rec@ == before[i as int]);
                assert(before[i as int] == start[i as int]);
                assert(start[i as int].wf(c));
            }
            let e = rec.check(now, &c);
            self.peers.insert(i, rec);
            proof {
                assert(self.peers_spec() =~= before.update(i as int, rec@));
                assert(self.peers_spec()[i as int] == check_step(start[i as int], now, c).0);
                assert(start.take(i + 1).drop_last() =~= start.take(i as int));
            }
            match e {
                Some(ev) => {
                    events.push(ev);
                },
                None => {},
            }
            i = i + 1;
        }
        proof {
            assert(start.take(i as int) =~= start);
            assert forall|j: int| 0 <= j < self.peers_spec().len() implies #[trigger] self.peers_spec()[j].wf(c) by {
                assert(self.peers_spec()[j] == check_step(start[j], now, c).0);
                assert(start[j].wf(c));
            }
            assert forall|a: int, b: int|
                0 <= a < self.peers_spec().len() && 0 <= b < self.peers_spec().len() && a != b
                implies #[trigger] self.peers_spec()[a].peer_id != #[trigger] self.peers_spec()[b].peer_id by {
                assert(self.peers_spec()[a] == check_step(start[a], now, c).0);
                assert(self.peers_spec()[b] == check_step(start[b], now, c).0);
            }
        }
        events
    }
}

/// The `PeerDead` events that checking the peers `s` at `now` produces.
pub open spec fn dead_events(s: Seq<PeerView>, now: u64, c: DetectorConfig) -> Seq<LivenessEvent>
    decreases s.len(),
{
    if s.len() == 0 {
        Seq::empty()
    } else {
        let prev = dead_events(s.drop_last(), now, c);
        match check_step(s.last(), now, c).1 {
            Some(ev) => prev.push(ev),
            None => prev,
        }
    }
}

/// A live peer that falls silent for longer than the grace period turns
/// dead exactly once: the first check reports it, later checks stay quiet,
/// and a single heartbeat ending that gap does not bring it back.
pub proof fn lemma_gap_turns_dead_once(
    p: PeerView,
    c: DetectorConfig,
    at: u64,
    later: u64,
    beat: u64,
)
    requires
        c.valid(),
        p.wf(c),
        p.alive,
        p.last_heartbeat <= at,
        at - p.last_heartbeat > c.grace,
        at <= beat,
    ensures
        ({
            let (p1, e1) = check_step(p, at, c);
            let (p2, e2) = check_step(p1, later, c);
            let (p3, e3) = heartbeat_step(p1, beat, c);
            &&& e1 == Some(LivenessEvent::PeerDead(p.peer_id))
            &&& !p1.alive
            &&& e2 is None
            &&& !p2.alive
            &&& e3 is None
            &&& !p3.alive
        }),
{
}

/// A dead peer comes back on a heartbeat only when the interval it ends
/// scores below the alive threshold, and then reports it once.
pub proof fn lemma_recovery_needs_low_suspicion(p: PeerView, c: DetectorConfig, now: u64)
    requires
        c.valid(),
        !p.alive,
        p.last_heartbeat <= now,
    ensures
        heartbeat_step(p, now, c).0.alive <==> suspicion(
            p.history,
            (now - p.last_heartbeat) as u64,
            c,
        ) < c.alive_threshold,
        heartbeat_step(p, now, c).0.alive ==> heartbeat_step(p, now, c).1 == Some(
            LivenessEvent::PeerAlive(p.peer_id),
        ),
{
}

} // verus!
