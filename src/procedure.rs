use vstd::prelude::*;

use crate::election::LeaderEvent;
use crate::lock::{acquire_step, release_step, LockManager, LockTable, LockToken};

verus! {

#[derive(Clone, Copy, Debug, PartialEq, Eq, Structural)]
pub enum ProcedureStatus {
    Running,
    Suspended,
    Done,
    Failed,
    RolledBack,
}

/// Steps of moving a failed region to a healthy node.
#[derive(Clone, Copy, Debug, PartialEq, Eq, Structural)]
pub enum FailoverStep {
    DeactivateRegion,
    SelectCandidate,
    ActivateRegion,
    UpdateMetadata,
    InvalidateCache,
}

/// Steps of creating a table across its regions.
#[derive(Clone, Copy, Debug, PartialEq, Eq, Structural)]
pub enum CreateTableStep {
    Prepare,
    CreateRegions,
    CreateMetadata,
}

/// The kinds of procedure the executor runs.
#[derive(Clone, Copy, Debug, PartialEq, Eq, Structural)]
pub enum ProcedureKind {
    RegionFailover,
    CreateTable,
}

/// One step of some procedure, tagged by its kind.
#[derive(Clone, Copy, Debug, PartialEq, Eq, Structural)]
pub enum ProcedureStep {
    Failover(FailoverStep),
    CreateTable(CreateTableStep),
}

impl ProcedureKind {
    pub open spec fn spec_step_count(self) -> u64 {
        match self {
            ProcedureKind::RegionFailover => 5,
            ProcedureKind::CreateTable => 3,
        }
    }

    /// Whether partial effects of a failed procedure of this kind can be
    /// undone by a rollback.
    pub open spec fn spec_has_rollback(self) -> bool {
        match self {
            ProcedureKind::RegionFailover => false,
            ProcedureKind::CreateTable => true,
        }
    }

    /// Step `i` of this kind, in execution order.
    pub open spec fn spec_step(self, i: u64) -> ProcedureStep {
        match self {
            ProcedureKind::RegionFailover => ProcedureStep::Failover(
                if i == 0 {
                    FailoverStep::DeactivateRegion
                } else if i == 1 {
                    FailoverStep::SelectCandidate
                } else if i == 2 {
                    FailoverStep::ActivateRegion
                } else if i == 3 {
                    FailoverStep::UpdateMetadata
                } else {
                    FailoverStep::InvalidateCache
                },
            ),
            ProcedureKind::CreateTable => ProcedureStep::CreateTable(
                if i == 0 {
                    CreateTableStep::Prepare
                } else if i == 1 {
                    CreateTableStep::CreateRegions
                } else {
                    CreateTableStep::CreateMetadata
                },
            ),
        }
    }

    pub fn step_count(&self) -> (r: u64)
        ensures
            r == self.spec_step_count(),
    {
        match self {
            ProcedureKind::RegionFailover => 5,
            ProcedureKind::CreateTable => 3,
        }
    }

    pub fn has_rollback(&self) -> (r: bool)
        ensures
            r == self.spec_has_rollback(),
    {
        match self {
            ProcedureKind::RegionFailover => false,
            ProcedureKind::CreateTable => true,
        }
    }

    pub fn step(&self, i: u64) -> (r: ProcedureStep)
        ensures
            r == self.spec_step(i),
    {
        match self {
            ProcedureKind::RegionFailover => ProcedureStep::Failover(
                if i == 0 {
                    FailoverStep::DeactivateRegion
                } else if i == 1 {
                    FailoverStep::SelectCandidate
                } else if i == 2 {
                    FailoverStep::ActivateRegion
                } else if i == 3 {
                    FailoverStep::UpdateMetadata
                } else {
                    FailoverStep::InvalidateCache
                },
            ),
            ProcedureKind::CreateTable => ProcedureStep::CreateTable(
                if i == 0 {
                    CreateTableStep::Prepare
                } else if i == 1 {
                    CreateTableStep::CreateRegions
                } else {
                    CreateTableStep::CreateMetadata
                },
            ),
        }
    }
}

/// What running one step's side effect came to.
#[derive(Clone, Copy, Debug, PartialEq, Eq, Structural)]
pub enum StepOutcome {
    /// The step finished; the procedure moves to its next step.
    Done,
    /// The step waits for something outside; the procedure is suspended.
    Suspended,
    /// The step failed with the given error code.
    Failed(u64),
}

#[derive(Clone, Copy, Debug, PartialEq, Eq, Structural)]
pub enum ExecError {
    /// This executor's process is not the leader; it issues no side effects.
    NotLeader,
    /// No procedure has this id.
    NotFound,
    /// The procedure is not running.
    NotRunnable,
    /// The procedure waits out its retry backoff.
    BackingOff,
    /// Another procedure holds the lock of the same resource.
    Conflict,
    /// No step (or rollback) of the procedure is in flight.
    NotInFlight,
    /// The procedure cannot be rolled back.
    NotRollbackable,
    /// The procedure is not suspended.
    NotSuspended,
    /// The procedure has not reached a final status, or is already archived.
    NotFinished,
    /// The retention window of the finished procedure has not passed.
    RetentionPending,
}

/// The persisted record of one procedure, overwritten on each transition.
#[derive(Clone, Copy, Debug, PartialEq, Eq, Structural)]
pub struct ProcedureRecord {
    pub procedure_id: u64,
    pub kind: ProcedureKind,
    /// Name of the lock that serializes procedures on the same resource.
    pub resource: u64,
    pub status: ProcedureStatus,
    /// The step to run next; every step before it is done.
    pub step_index: u64,
    /// The intent to run the current step (or the rollback) is persisted and
    /// its result is not.
    pub in_flight: bool,
    /// Failed attempts of the current step.
    pub attempts: u64,
    /// Earliest time of the next attempt.
    pub retry_at: u64,
    pub last_error: Option<u64>,
    pub rollback_failed: bool,
    pub lock: Option<LockToken>,
    /// When the procedure reached its final status.
    pub finished_at: u64,
    /// The record is past its retention window and kept for history only.
    pub archived: bool,
}

/// Retry budget, backoff and lock lease of the executor.
#[derive(Clone, Copy, Debug, PartialEq, Eq, Structural)]
pub struct ExecutorConfig {
    /// Failed attempts of one step after which the procedure fails.
    pub max_attempts: u64,
    /// Delay after the first failed attempt.
    pub base_backoff: u64,
    /// Largest delay between attempts.
    pub max_backoff: u64,
    /// Ttl of the resource lock taken by each step.
    pub lock_ttl: u64,
    /// How long a finished procedure stays before it may be archived.
    pub retention: u64,
}

impl ExecutorConfig {
    pub open spec fn valid(self) -> bool {
        self.max_attempts >= 1
    }
}

/// Delay before attempt `n + 1` after `n` failed ones: the base delay,
/// doubled after each further failure, capped at `max_backoff`.
pub open spec fn backoff(c: ExecutorConfig, n: u64) -> int
    decreases n,
{
    if n <= 1 {
        if c.base_backoff <= c.max_backoff {
            c.base_backoff as int
        } else {
            c.max_backoff as int
        }
    } else {
        let prev = backoff(c, (n - 1) as u64);
        if 2 * prev <= c.max_backoff {
            2 * prev
        } else {
            c.max_backoff as int
        }
    }
}

impl ProcedureRecord {
    pub open spec fn wf(self, id: int, c: ExecutorConfig) -> bool {
        &&& self.procedure_id == id
        &&& self.step_index <= self.kind.spec_step_count()
        &&& (self.status is Running || self.status is Suspended) ==> self.step_index
            < self.kind.spec_step_count()
        &&& self.status is Done ==> self.step_index == self.kind.spec_step_count()
        &&& (self.status is Running || self.status is Suspended) ==> self.attempts
            < c.max_attempts
        &&& self.in_flight ==> (self.status is Running || self.status is Failed)
        &&& self.archived ==> !self.in_flight && (self.status is Done || self.status is Failed
            || self.status is RolledBack)
    }
}

/// The record of a newly submitted procedure.
pub open spec fn submitted(id: u64, kind: ProcedureKind, resource: u64) -> ProcedureRecord {
    ProcedureRecord {
        procedure_id: id,
        kind,
        resource,
        status: ProcedureStatus::Running,
        step_index: 0,
        in_flight: false,
        attempts: 0,
        retry_at: 0,
        last_error: None,
        rollback_failed: false,
        lock: None,
        finished_at: 0,
        archived: false,
    }
}

/// The lock table after the procedure gives up its resource lock.
pub open spec fn release_lock(locks: LockTable, r: ProcedureRecord, now: u64) -> LockTable {
    match r.lock {
        Some(t) => release_step(locks, r.resource, t, now).0,
        None => locks,
    }
}

/// Effect of beginning the current step: a runnable procedure past its
/// backoff takes (or refreshes) its resource lock and persists the intent
/// to run the step before the step is handed out.
pub open spec fn begin_spec(c: ExecutorConfig, r: ProcedureRecord, locks: LockTable, now: u64) -> (
    ProcedureRecord,
    LockTable,
    Result<ProcedureStep, ExecError>,
) {
    if !(r.status is Running) {
        (r, locks, Err(ExecError::NotRunnable))
    } else if now < r.retry_at {
        (r, locks, Err(ExecError::BackingOff))
    } else {
        let (l2, got) = acquire_step(locks, r.resource, r.procedure_id, c.lock_ttl, now);
        match got {
            Ok(tok) => (
                ProcedureRecord { in_flight: true, lock: Some(tok), ..r },
                l2,
                Ok(r.kind.spec_step(r.step_index)),
            ),
            Err(_) => (r, locks, Err(ExecError::Conflict)),
        }
    }
}

/// Effect of persisting a step's outcome. Only a step in flight can
/// complete, so a duplicate completion changes nothing. A finished last step
/// makes the procedure `Done`; a failure is recorded, then retried after a
/// backoff until the attempt budget is spent and the procedure is `Failed`.
/// Leaving for `Done` or `Failed` gives up the resource lock.
pub open spec fn complete_spec(
    c: ExecutorConfig,
    r: ProcedureRecord,
    locks: LockTable,
    outcome: StepOutcome,
    now: u64,
) -> (ProcedureRecord, LockTable, Result<ProcedureStatus, ExecError>) {
    if !(r.status is Running) || !r.in_flight {
        (r, locks, Err(ExecError::NotInFlight))
    } else {
        match outcome {
            StepOutcome::Done => {
                let next = (r.step_index + 1) as u64;
                if next == r.kind.spec_step_count() {
                    (
                        ProcedureRecord {
                            status: ProcedureStatus::Done,
                            step_index: next,
                            in_flight: false,
                            attempts: 0,
                            lock: None,
                            finished_at: now,
                            ..r
                        },
                        release_lock(locks, r, now),
                        Ok(ProcedureStatus::Done),
                    )
                } else {
                    (
                        ProcedureRecord {
                            step_index: next,
                            in_flight: false,
                            attempts: 0,
                            ..r
                        },
                        locks,
                        Ok(ProcedureStatus::Running),
                    )
                }
            },
            StepOutcome::Suspended => (
                ProcedureRecord { status: ProcedureStatus::Suspended, in_flight: false, ..r },
                locks,
                Ok(ProcedureStatus::Suspended),
            ),
            StepOutcome::Failed(code) => {
                let n = (r.attempts + 1) as u64;
                if n >= c.max_attempts {
                    (
                        ProcedureRecord {
                            status: ProcedureStatus::Failed,
                            in_flight: false,
                            attempts: n,
                            last_error: Some(code),
                            lock: None,
                            finished_at: now,
                            ..r
                        },
                        release_lock(locks, r, now),
                        Ok(ProcedureStatus::Failed),
                    )
                } else {
                    (
                        ProcedureRecord {
                            in_flight: false,
                            attempts: n,
                            last_error: Some(code),
                            retry_at: (now + backoff(c, n)) as u64,
                            ..r
                        },
                        locks,
                        Ok(ProcedureStatus::Running),
                    )
                }
            },
        }
    }
}

/// Effect of waking a suspended procedure.
pub open spec fn wake_spec(r: ProcedureRecord) -> (ProcedureRecord, Result<(), ExecError>) {
    if r.status is Suspended {
        (ProcedureRecord { status: ProcedureStatus::Running, ..r }, Ok(()))
    } else {
        (r, Err(ExecError::NotSuspended))
    }
}

/// Effect of beginning a rollback: only a failed procedure of a kind with a
/// rollback, whose rollback has not failed before, and only under its
/// resource lock.
pub open spec fn begin_rollback_spec(
    c: ExecutorConfig,
    r: ProcedureRecord,
    locks: LockTable,
    now: u64,
) -> (ProcedureRecord, LockTable, Result<(), ExecError>) {
    if !(r.status is Failed) || !r.kind.spec_has_rollback() || r.rollback_failed || r.archived {
        (r, locks, Err(ExecError::NotRollbackable))
    } else {
        let (l2, got) = acquire_step(locks, r.resource, r.procedure_id, c.lock_ttl, now);
        match got {
            Ok(tok) => (ProcedureRecord { in_flight: true, lock: Some(tok), ..r }, l2, Ok(())),
            Err(_) => (r, locks, Err(ExecError::Conflict)),
        }
    }
}

/// Effect of persisting a rollback's outcome: success makes the procedure
/// `RolledBack`; failure leaves it `Failed` for good.
pub open spec fn complete_rollback_spec(
    r: ProcedureRecord,
    locks: LockTable,
    succeeded: bool,
    now: u64,
) -> (ProcedureRecord, LockTable, Result<ProcedureStatus, ExecError>) {
    if !(r.status is Failed) || !r.in_flight {
        (r, locks, Err(ExecError::NotInFlight))
    } else if succeeded {
        (
            ProcedureRecord {
                status: ProcedureStatus::RolledBack,
                in_flight: false,
                lock: None,
                finished_at: now,
                ..r
            },
            release_lock(locks, r, now),
            Ok(ProcedureStatus::RolledBack),
        )
    } else {
        (
            ProcedureRecord {
                rollback_failed: true,
                in_flight: false,
                lock: None,
                finished_at: now,
                ..r
            },
            release_lock(locks, r, now),
            Ok(ProcedureStatus::Failed),
        )
    }
}

/// Effect of archiving: a procedure that reached its final status (done,
/// rolled back, or failed with nothing in flight) is archived once the
/// retention window since it finished has passed.
pub open spec fn archive_spec(c: ExecutorConfig, r: ProcedureRecord, now: u64) -> (
    ProcedureRecord,
    Result<(), ExecError>,
) {
    if r.archived || r.in_flight || !(r.status is Done || r.status is Failed
        || r.status is RolledBack) {
        (r, Err(ExecError::NotFinished))
    } else if now < r.finished_at + c.retention {
        (r, Err(ExecError::RetentionPending))
    } else {
        (ProcedureRecord { archived: true, ..r }, Ok(()))
    }
}

/// Ids of the procedures that a new leader resumes: those running or
/// suspended, in id order.
pub open spec fn resumable_ids(s: Seq<ProcedureRecord>) -> Seq<u64>
    decreases s.len(),
{
    if s.len() == 0 {
        Seq::empty()
    } else {
        let prev = resumable_ids(s.drop_last());
        if s.last().status is Running || s.last().status is Suspended {
            prev.push(s.last().procedure_id)
        } else {
            prev
        }
    }
}

/// The persisted procedure namespace: the record of procedure `i` at
/// position `i`. It is the single source of truth and outlives executors.
pub struct ProcedureStore {
    records: Vec<ProcedureRecord>,
}

impl View for ProcedureStore {
    type V = Seq<ProcedureRecord>;

    closed spec fn view(&self) -> Seq<ProcedureRecord> {
        self.records@
    }
}

impl ProcedureStore {
    pub open spec fn wf(&self, c: ExecutorConfig) -> bool {
        forall|i: int| 0 <= i < self@.len() ==> #[trigger] self@[i].wf(i, c)
    }

    pub fn new() -> (r: Self)
        ensures
            r@.len() == 0,
    {
        ProcedureStore { records: Vec::new() }
    }

    pub fn len(&self) -> (r: usize)
        ensures
            r == self@.len(),
    {
        self.records.len()
    }

    pub fn get(&self, id: u64) -> (r: Option<ProcedureRecord>)
        ensures
            r == (if id < self@.len() {
                Some(self@[id as int])
            } else {
                None
            }),
    {
        if id < self.records.len() as u64 {
            Some(self.records[id as usize])
        } else {
            None
        }
    }

    /// Status of procedure `id`, if it exists.
    pub fn status(&self, id: u64) -> (r: Option<ProcedureStatus>)
        ensures
            r == (if id < self@.len() {
                Some(self@[id as int].status)
            } else {
                None
            }),
    {
        match self.get(id) {
            Some(rec) => Some(rec.status),
            None => None,
        }
    }

    /// Position of procedure `id` in the store, if it exists.
    fn locate(&self, id: u64) -> (r: Option<usize>)
        ensures
            r matches Some(i) ==> i == id && id < self@.len(),
            r is None ==> id >= self@.len(),
    {
        if id < self.records.len() as u64 {
            Some(id as usize)
        } else {
            None
        }
    }

    fn put(&mut self, id: usize, rec: ProcedureRecord)
        requires
            id < old(self)@.len(),
        ensures
            final(self)@ == old(self)@.update(id as int, rec),
    {
        self.records.set(id, rec);
    }
}

/// Runs procedures step by step against the persisted store. It holds no
/// state of its own beyond whether its process leads: everything it needs
/// to resume is read back from the store.
pub struct ProcedureExecutor {
    config: ExecutorConfig,
    active: bool,
}

impl ProcedureExecutor {
    pub closed spec fn config_spec(&self) -> ExecutorConfig {
        self.config
    }

    pub closed spec fn active_spec(&self) -> bool {
        self.active
    }

    /// An inactive executor, if the configuration is valid.
    pub fn new(config: ExecutorConfig) -> (r: Option<Self>)
        ensures
            r is Some <==> config.valid(),
            r matches Some(e) ==> e.config_spec() == config && !e.active_spec(),
    {
        if config.max_attempts >= 1 {
            Some(ProcedureExecutor { config, active: false })
        } else {
            None
        }
    }

    pub fn is_active(&self) -> (r: bool)
        ensures
            r == self.active_spec(),
    {
        self.active
    }

    /// Follows the election: on becoming leader the executor starts issuing
    /// side effects; on losing leadership it stops at once.
    pub fn on_leader_event(&mut self, ev: LeaderEvent)
        ensures
            final(self).config_spec() == old(self).config_spec(),
            final(self).active_spec() == (match ev {
                LeaderEvent::BecameLeader(_) => true,
                LeaderEvent::LostLeadership => false,
                LeaderEvent::LeaderChanged(_, _) => old(self).active_spec(),
            }),
    {
        match ev {
            LeaderEvent::BecameLeader(_) => {
                self.active = true;
            },
            LeaderEvent::LostLeadership => {
                self.active = false;
            },
            LeaderEvent::LeaderChanged(_, _) => {},
        }
    }

    /// Ids of the procedures to resume, rebuilt from the store alone.
    pub fn recover(&self, store: &ProcedureStore) -> (r: Vec<u64>)
        requires
            store.wf(self.config_spec()),
        ensures
            r@ == resumable_ids(store@),
    {
        let mut ids: Vec<u64> = Vec::new();
        let mut i: usize = 0;
        while i < store.len()
            invariant
                0 <= i <= store@.len(),
                store.wf(self.config_spec()),
                ids@ == resumable_ids(store@.take(i as int)),
            decreases store@.len() - i,
        {
            proof {
                assert(store@.take(i + 1).drop_last() =~= store@.take(i as int));
                assert(store@[i as int].wf(i as int, self.config_spec()));
            }
            let rec = store.records[i];
            match rec.status {
                ProcedureStatus::Running | ProcedureStatus::Suspended => {
                    ids.push(rec.procedure_id);
                },
                _ => {},
            }
            i = i + 1;
        }
        proof {
            assert(store@.take(i as int) =~= store@);
        }
        ids
    }

    /// Persists a new procedure and returns its id.
    pub fn submit(&self, store: &mut ProcedureStore, kind: ProcedureKind, resource: u64) -> (r:
        u64)
        requires
            old(store).wf(self.config_spec()),
            self.config_spec().valid(),
            old(store)@.len() < u64::MAX,
        ensures
            final(store).wf(self.config_spec()),
            r == old(store)@.len(),
            final(store)@ == old(store)@.push(submitted(r, kind, resource)),
    {
        let id = store.records.len() as u64;
        store.records.push(
            ProcedureRecord {
                procedure_id: id,
                kind,
                resource,
                status: ProcedureStatus::Running,
                step_index: 0,
                in_flight: false,
                attempts: 0,
                retry_at: 0,
                last_error: None,
                rollback_failed: false,
                lock: None,
                finished_at: 0,
                archived: false,
            },
        );
        proof {
            assert forall|i: int| 0 <= i < store@.len() implies #[trigger] store@[i].wf(
                i,
                self.config_spec(),
            ) by {
                if i < old(store)@.len() {
                    assert(store@[i] == old(store)@[i]);
                }
            }
        }
        id
    }

    fn release_held(r: &ProcedureRecord, locks: &mut LockManager, now: u64)
        requires
            old(locks)@.wf(),
        ensures
            final(locks)@.wf(),
            final(locks)@ == release_lock(old(locks)@, *r, now),
    {
        match r.lock {
            Some(t) => {
                let _ = locks.release(r.resource, t, now);
            },
            None => {},
        }
    }

    /// Delay before the next attempt after `n` failed ones.
    pub fn backoff_delay(&self, n: u64) -> (r: u64)
        ensures
            r == backoff(self.config_spec(), n),
    {
        let c = self.config;
        let mut d: u64 = if c.base_backoff <= c.max_backoff {
            c.base_backoff
        } else {
            c.max_backoff
        };
        let mut k: u64 = 1;
        while k < n
            invariant
                1 <= k,
                n <= 1 ==> k == 1,
                n > 1 ==> k <= n,
                d == backoff(c, k),
                d <= c.max_backoff,
                c == self.config_spec(),
            decreases n - k,
        {
            d = if d <= c.max_backoff / 2 {
                2 * d
            } else {
                c.max_backoff
            };
            k = k + 1;
        }
        d
    }

    /// Begins the current step of procedure `id`: takes the resource lock,
    /// persists the intent, and hands out the step to run. Run after a crash,
    /// it hands out the same step again.
    pub fn begin_step(
        &self,
        store: &mut ProcedureStore,
        locks: &mut LockManager,
        id: u64,
        now: u64,
    ) -> (r: Result<ProcedureStep, ExecError>)
        requires
            old(store).wf(self.config_spec()),
            old(locks)@.wf(),
            now + self.config_spec().lock_ttl <= u64::MAX,
            old(locks)@.next_fence < u64::MAX,
        ensures
            final(store).wf(self.config_spec()),
            final(locks)@.wf(),
            !self.active_spec() ==> r == Err::<ProcedureStep, ExecError>(ExecError::NotLeader)
                && final(store)@ == old(store)@ && final(locks)@ == old(locks)@,
            self.active_spec() && id >= old(store)@.len() ==> r == Err::<
                ProcedureStep,
                ExecError,
            >(ExecError::NotFound) && final(store)@ == old(store)@ && final(locks)@ == old(locks)@,
            self.active_spec() && id < old(store)@.len() ==> {
                let (rec, l2, res) = begin_spec(
                    self.config_spec(),
                    old(store)@[id as int],
                    old(locks)@,
                    now,
                );
                &&& r == res
                &&& final(store)@ == old(store)@.update(id as int, rec)
                &&& final(locks)@ == l2
            },
    {
        if !self.active {
            return Err(ExecError::NotLeader);
        }
        let idx = match store.locate(id) {
            Some(i) => i,
            None => {
                return Err(ExecError::NotFound);
            },
        };
        let rec = store.records[idx];
        proof {
            assert(old(store)@[id as int].wf(id as int, self.config_spec()));
        }
        match rec.status {
            ProcedureStatus::Running => {},
            _ => {
                return Err(ExecError::NotRunnable);
            },
        }
        if now < rec.retry_at {
            return Err(ExecError::BackingOff);
        }
        match locks.acquire(rec.resource, rec.procedure_id, self.config.lock_ttl, now) {
            Ok(tok) => {
                let n = ProcedureRecord { in_flight: true, lock: Some(tok), ..rec };
                store.put(idx, n);
                proof {
                    assert forall|i: int| 0 <= i < store@.len() implies #[trigger] store@[i].wf(
                        i,
                        self.config_spec(),
                    ) by {
                        if i != id {
                            assert(store@[i] == old(store)@[i]);
                        }
                    }
                }
                Ok(rec.kind.step(rec.step_index))
            },
            Err(_) => Err(ExecError::Conflict),
        }
    }

    /// Persists the outcome of the step in flight of procedure `id` and the
    /// transition it causes. An executor that lost leadership abandons the
    /// result without recording anything: the next leader decides from the
    /// store.
    pub fn complete_step(
        &self,
        store: &mut ProcedureStore,
        locks: &mut LockManager,
        id: u64,
        outcome: StepOutcome,
        now: u64,
    ) -> (r: Result<ProcedureStatus, ExecError>)
        requires
            old(store).wf(self.config_spec()),
            old(locks)@.wf(),
            self.config_spec().valid(),
            now + self.config_spec().max_backoff <= u64::MAX,
        ensures
            final(store).wf(self.config_spec()),
            final(locks)@.wf(),
            !self.active_spec() ==> r == Err::<ProcedureStatus, ExecError>(ExecError::NotLeader)
                && final(store)@ == old(store)@ && final(locks)@ == old(locks)@,
            self.active_spec() && id >= old(store)@.len() ==> r == Err::<
                ProcedureStatus,
                ExecError,
            >(ExecError::NotFound) && final(store)@ == old(store)@ && final(locks)@ == old(locks)@,
            self.active_spec() && id < old(store)@.len() ==> {
                let (rec, l2, res) = complete_spec(
                    self.config_spec(),
                    old(store)@[id as int],
                    old(locks)@,
                    outcome,
                    now,
                );
                &&& r == res
                &&& final(store)@ == old(store)@.update(id as int, rec)
                &&& final(locks)@ == l2
            },
    {
        if !self.active {
            return Err(ExecError::NotLeader);
        }
        let idx = match store.locate(id) {
            Some(i) => i,
            None => {
                return Err(ExecError::NotFound);
            },
        };
        let rec = store.records[idx];
        proof {
            assert(old(store)@[id as int].wf(id as int, self.config_spec()));
        }
        match rec.status {
            ProcedureStatus::Running => {},
            _ => {
                return Err(ExecError::NotInFlight);
            },
        }
        if !rec.in_flight {
            return Err(ExecError::NotInFlight);
        }
        let (n, st) = match outcome {
            StepOutcome::Done => {
                let next = rec.step_index + 1;
                if next == rec.kind.step_count() {
                    Self::release_held(&rec, locks, now);
                    (
                        ProcedureRecord {
                            status: ProcedureStatus::Done,
                            step_index: next,
                            in_flight: false,
                            attempts: 0,
                            lock: None,
                            finished_at: now,
                            ..rec
                        },
                        ProcedureStatus::Done,
                    )
                } else {
                    (
                        ProcedureRecord { step_index: next, in_flight: false, attempts: 0, ..rec },
                        ProcedureStatus::Running,
                    )
                }
            },
            StepOutcome::Suspended => (
                ProcedureRecord { status: ProcedureStatus::Suspended, in_flight: false, ..rec },
                ProcedureStatus::Suspended,
            ),
            StepOutcome::Failed(code) => {
                let k = rec.attempts + 1;
                if k >= self.config.max_attempts {
                    Self::release_held(&rec, locks, now);
                    (
                        ProcedureRecord {
                            status: ProcedureStatus::Failed,
                            in_flight: false,
                            attempts: k,
                            last_error: Some(code),
                            lock: None,
                            finished_at: now,
                            ..rec
                        },
                        ProcedureStatus::Failed,
                    )
                } else {
                    let delay = self.backoff_delay(k);
                    (
                        ProcedureRecord {
                            in_flight: false,
                            attempts: k,
                            last_error: Some(code),
                            retry_at: now + delay,
                            ..rec
                        },
                        ProcedureStatus::Running,
                    )
                }
            },
        };
        store.put(idx, n);
        proof {
            assert forall|i: int| 0 <= i < store@.len() implies #[trigger] store@[i].wf(
                i,
                self.config_spec(),
            ) by {
                if i != id {
                    assert(store@[i] == old(store)@[i]);
                }
            }
        }
        Ok(st)
    }

    /// Returns a suspended procedure to running.
    pub fn wake(&self, store: &mut ProcedureStore, id: u64) -> (r: Result<(), ExecError>)
        requires
            old(store).wf(self.config_spec()),
        ensures
            final(store).wf(self.config_spec()),
            !self.active_spec() ==> r == Err::<(), ExecError>(ExecError::NotLeader) && final(store)@ == old(store)@,
            self.active_spec() && id >= old(store)@.len() ==> r == Err::<(), ExecError>(
                ExecError::NotFound,
            ) && final(store)@ == old(store)@,
            self.active_spec() && id < old(store)@.len() ==> {
                let (rec, res) = wake_spec(old(store)@[id as int]);
                &&& r == res
                &&& final(store)@ == old(store)@.update(id as int, rec)
            },
    {
        if !self.active {
            return Err(ExecError::NotLeader);
        }
        let idx = match store.locate(id) {
            Some(i) => i,
            None => {
                return Err(ExecError::NotFound);
            },
        };
        let rec = store.records[idx];
        proof {
            assert(old(store)@[id as int].wf(id as int, self.config_spec()));
        }
        match rec.status {
            ProcedureStatus::Suspended => {
                store.put(idx, ProcedureRecord { status: ProcedureStatus::Running, ..rec });
                proof {
                    assert forall|i: int| 0 <= i < store@.len() implies #[trigger] store@[i].wf(
                        i,
                        self.config_spec(),
                    ) by {
                        if i != id {
                            assert(store@[i] == old(store)@[i]);
                        }
                    }
                }
                Ok(())
            },
            _ => Err(ExecError::NotSuspended),
        }
    }

    /// Begins rolling back a failed procedure under its resource lock.
    pub fn begin_rollback(
        &self,
        store: &mut ProcedureStore,
        locks: &mut LockManager,
        id: u64,
        now: u64,
    ) -> (r: Result<(), ExecError>)
        requires
            old(store).wf(self.config_spec()),
            old(locks)@.wf(),
            now + self.config_spec().lock_ttl <= u64::MAX,
            old(locks)@.next_fence < u64::MAX,
        ensures
            final(store).wf(self.config_spec()),
            final(locks)@.wf(),
            !self.active_spec() ==> r == Err::<(), ExecError>(ExecError::NotLeader) && final(store)@ == old(store)@ && final(locks)@ == old(locks)@,
            self.active_spec() && id >= old(store)@.len() ==> r == Err::<(), ExecError>(
                ExecError::NotFound,
            ) && final(store)@ == old(store)@ && final(locks)@ == old(locks)@,
            self.active_spec() && id < old(store)@.len() ==> {
                let (rec, l2, res) = begin_rollback_spec(
                    self.config_spec(),
                    old(store)@[id as int],
                    old(locks)@,
                    now,
                );
                &&& r == res
                &&& final(store)@ == old(store)@.update(id as int, rec)
                &&& final(locks)@ == l2
            },
    {
        if !self.active {
            return Err(ExecError::NotLeader);
        }
        let idx = match store.locate(id) {
            Some(i) => i,
            None => {
                return Err(ExecError::NotFound);
            },
        };
        let rec = store.records[idx];
        proof {
            assert(old(store)@[id as int].wf(id as int, self.config_spec()));
        }
        let failed = match rec.status {
            ProcedureStatus::Failed => true,
            _ => false,
        };
        if !failed || !rec.kind.has_rollback() || rec.rollback_failed || rec.archived {
            return Err(ExecError::NotRollbackable);
        }
        match locks.acquire(rec.resource, rec.procedure_id, self.config.lock_ttl, now) {
            Ok(tok) => {
                store.put(idx, ProcedureRecord { in_flight: true, lock: Some(tok), ..rec });
                proof {
                    assert forall|i: int| 0 <= i < store@.len() implies #[trigger] store@[i].wf(
                        i,
                        self.config_spec(),
                    ) by {
                        if i != id {
                            assert(store@[i] == old(store)@[i]);
                        }
                    }
                }
                Ok(())
            },
            Err(_) => Err(ExecError::Conflict),
        }
    }

    /// Persists the outcome of the rollback in flight of procedure `id`.
    /// A failed rollback is terminal: the procedure stays `Failed` and is
    /// never rolled back again.
    pub fn complete_rollback(
        &self,
        store: &mut ProcedureStore,
        locks: &mut LockManager,
        id: u64,
        succeeded: bool,
        now: u64,
    ) -> (r: Result<ProcedureStatus, ExecError>)
        requires
            old(store).wf(self.config_spec()),
            old(locks)@.wf(),
        ensures
            final(store).wf(self.config_spec()),
            final(locks)@.wf(),
            !self.active_spec() ==> r == Err::<ProcedureStatus, ExecError>(ExecError::NotLeader)
                && final(store)@ == old(store)@ && final(locks)@ == old(locks)@,
            self.active_spec() && id >= old(store)@.len() ==> r == Err::<
                ProcedureStatus,
                ExecError,
            >(ExecError::NotFound) && final(store)@ == old(store)@ && final(locks)@ == old(locks)@,
            self.active_spec() && id < old(store)@.len() ==> {
                let (rec, l2, res) = complete_rollback_spec(
                    old(store)@[id as int],
                    old(locks)@,
                    succeeded,
                    now,
                );
                &&& r == res
                &&& final(store)@ == old(store)@.update(id as int, rec)
                &&& final(locks)@ == l2
            },
    {
        if !self.active {
            return Err(ExecError::NotLeader);
        }
        let idx = match store.locate(id) {
            Some(i) => i,
            None => {
                return Err(ExecError::NotFound);
            },
        };
        let rec = store.records[idx];
        proof {
            assert(old(store)@[id as int].wf(id as int, self.config_spec()));
        }
        let failed = match rec.status {
            ProcedureStatus::Failed => true,
            _ => false,
        };
        if !failed || !rec.in_flight {
            return Err(ExecError::NotInFlight);
        }
        Self::release_held(&rec, locks, now);
        let (n, st) = if succeeded {
            (
                ProcedureRecord {
                    status: ProcedureStatus::RolledBack,
                    in_flight: false,
                    lock: None,
                    finished_at: now,
                    ..rec
                },
                ProcedureStatus::RolledBack,
            )
        } else {
            (
                ProcedureRecord {
                    rollback_failed: true,
                    in_flight: false,
                    lock: None,
                    finished_at: now,
                    ..rec
                },
                ProcedureStatus::Failed,
            )
        };
        store.put(idx, n);
        proof {
            assert forall|i: int| 0 <= i < store@.len() implies #[trigger] store@[i].wf(
                i,
                self.config_spec(),
            ) by {
                if i != id {
                    assert(store@[i] == old(store)@[i]);
                }
            }
        }
        Ok(st)
    }

    /// Archives a finished procedure whose retention window has passed.
    pub fn archive(&self, store: &mut ProcedureStore, id: u64, now: u64) -> (r: Result<
        (),
        ExecError,
    >)
        requires
            old(store).wf(self.config_spec()),
        ensures
            final(store).wf(self.config_spec()),
            !self.active_spec() ==> r == Err::<(), ExecError>(ExecError::NotLeader) && final(store)@ == old(store)@,
            self.active_spec() && id >= old(store)@.len() ==> r == Err::<(), ExecError>(
                ExecError::NotFound,
            ) && final(store)@ == old(store)@,
            self.active_spec() && id < old(store)@.len() ==> {
                let (rec, res) = archive_spec(self.config_spec(), old(store)@[id as int], now);
                &&& r == res
                &&& final(store)@ == old(store)@.update(id as int, rec)
            },
    {
        if !self.active {
            return Err(ExecError::NotLeader);
        }
        let idx = match store.locate(id) {
            Some(i) => i,
            None => {
                return Err(ExecError::NotFound);
            },
        };
        let rec = store.records[idx];
        proof {
            assert(old(store)@[id as int].wf(id as int, self.config_spec()));
        }
        let finished = match rec.status {
            ProcedureStatus::Done | ProcedureStatus::Failed | ProcedureStatus::RolledBack => true,
            _ => false,
        };
        if rec.archived || rec.in_flight || !finished {
            return Err(ExecError::NotFinished);
        }
        if now < rec.finished_at || now - rec.finished_at < self.config.retention {
            return Err(ExecError::RetentionPending);
        }
        store.put(idx, ProcedureRecord { archived: true, ..rec });
        proof {
            assert forall|i: int| 0 <= i < store@.len() implies #[trigger] store@[i].wf(
                i,
                self.config_spec(),
            ) by {
                if i != id {
                    assert(store@[i] == old(store)@[i]);
                }
            }
        }
        Ok(())
    }
}

proof fn lemma_resumable_contains(s: Seq<ProcedureRecord>, c: ExecutorConfig, id: int)
    requires
        0 <= id < s.len(),
        s[id].procedure_id == id,
        s[id].status is Running || s[id].status is Suspended,
    ensures
        resumable_ids(s).contains(id as u64),
    decreases s.len(),
{
    if id < s.len() - 1 {
        lemma_resumable_contains(s.drop_last(), c, id);
        let prev = resumable_ids(s.drop_last());
        let k = choose|k: int| 0 <= k < prev.len() && prev[k] == id as u64;
        assert(resumable_ids(s)[k] == id as u64);
    } else {
        let prev = resumable_ids(s.drop_last());
        assert(resumable_ids(s)[prev.len() as int] == id as u64);
    }
}

/// Crash resumption: when the executor dies after persisting the intent of
/// step N and before persisting its result, the procedure is among those a
/// restarted executor resumes; beginning it again hands out step N itself,
/// neither skipped nor replaced; its completion advances the procedure by
/// exactly one step; and a second, duplicate completion of that step is
/// refused and changes nothing.
pub proof fn lemma_crash_resumption(
    c: ExecutorConfig,
    s: Seq<ProcedureRecord>,
    locks: LockTable,
    id: u64,
    now: u64,
    later: u64,
    outcome: StepOutcome,
)
    requires
        c.valid(),
        forall|i: int| 0 <= i < s.len() ==> #[trigger] s[i].wf(i, c),
        id < s.len(),
        s[id as int].status is Running,
        s[id as int].in_flight,
        s[id as int].retry_at <= now,
        locks.wf(),
        locks.next_fence < u64::MAX,
        now + c.lock_ttl <= u64::MAX,
        later + c.max_backoff <= u64::MAX,
        locks.holder(s[id as int].resource, now) matches Some(h) ==> h.owner_id == id,
    ensures
        resumable_ids(s).contains(id),
        ({
            let r0 = s[id as int];
            let (r1, l1, res1) = begin_spec(c, r0, locks, now);
            let (r2, l2, res2) = complete_spec(c, r1, l1, StepOutcome::Done, later);
            let (r3, l3, res3) = complete_spec(c, r2, l2, outcome, later);
            &&& res1 == Ok::<ProcedureStep, ExecError>(r0.kind.spec_step(r0.step_index))
            &&& r1.in_flight && r1.step_index == r0.step_index
            &&& res2 is Ok
            &&& r2.step_index == r0.step_index + 1
            &&& !r2.in_flight
            &&& res3 == Err::<ProcedureStatus, ExecError>(ExecError::NotInFlight)
            &&& r3 == r2
            &&& l3 == l2
        }),
{
    assert(s[id as int].wf(id as int, c));
    lemma_resumable_contains(s, c, id as int);
}

/// A procedure that is `Done` or `RolledBack` never changes again: every
/// operation on it is refused and leaves record and locks as they were.
pub proof fn lemma_terminal_is_final(
    c: ExecutorConfig,
    r: ProcedureRecord,
    locks: LockTable,
    outcome: StepOutcome,
    succeeded: bool,
    now: u64,
)
    requires
        r.status is Done || r.status is RolledBack,
    ensures
        begin_spec(c, r, locks, now).0 == r && begin_spec(c, r, locks, now).1 == locks
            && begin_spec(c, r, locks, now).2 is Err,
        complete_spec(c, r, locks, outcome, now).0 == r && complete_spec(c, r, locks, outcome, now).1
            == locks && complete_spec(c, r, locks, outcome, now).2 is Err,
        wake_spec(r).0 == r && wake_spec(r).1 is Err,
        begin_rollback_spec(c, r, locks, now).0 == r && begin_rollback_spec(c, r, locks, now).1
            == locks && begin_rollback_spec(c, r, locks, now).2 is Err,
        complete_rollback_spec(r, locks, succeeded, now).0 == r && complete_rollback_spec(
            r,
            locks,
            succeeded,
            now,
        ).1 == locks && complete_rollback_spec(r, locks, succeeded, now).2 is Err,
{
}

} // verus!
