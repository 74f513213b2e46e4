use meta_srv::election::LeaderEvent;
use meta_srv::lock::LockManager;
use meta_srv::procedure::{
    CreateTableStep, ExecError, ExecutorConfig, FailoverStep, ProcedureExecutor, ProcedureKind,
    ProcedureStatus, ProcedureStep, ProcedureStore, StepOutcome,
};

fn cfg() -> ExecutorConfig {
    ExecutorConfig { max_attempts: 3, base_backoff: 100, max_backoff: 250, lock_ttl: 1000, retention: 5000 }
}

fn leader() -> ProcedureExecutor {
    let mut e = ProcedureExecutor::new(cfg()).unwrap();
    e.on_leader_event(LeaderEvent::BecameLeader(1));
    e
}

#[test]
fn config_needs_an_attempt() {
    assert!(ProcedureExecutor::new(ExecutorConfig { max_attempts: 0, ..cfg() }).is_none());
    assert!(!ProcedureExecutor::new(cfg()).unwrap().is_active());
}

#[test]
fn backoff_doubles_up_to_the_cap() {
    let e = leader();
    assert_eq!(e.backoff_delay(1), 100);
    assert_eq!(e.backoff_delay(2), 200);
    assert_eq!(e.backoff_delay(3), 250);
    assert_eq!(e.backoff_delay(40), 250);
    let wide = ProcedureExecutor::new(ExecutorConfig { max_backoff: u64::MAX, ..cfg() }).unwrap();
    assert_eq!(wide.backoff_delay(4), 800);
}

#[test]
fn procedure_runs_every_step_in_order_then_is_done() {
    let e = leader();
    let mut store = ProcedureStore::new();
    let mut locks = LockManager::new();
    let id = e.submit(&mut store, ProcedureKind::CreateTable, 5);
    assert_eq!(id, 0);
    assert_eq!(store.status(id), Some(ProcedureStatus::Running));
    let expected = [
        CreateTableStep::Prepare,
        CreateTableStep::CreateRegions,
        CreateTableStep::CreateMetadata,
    ];
    for (i, step) in expected.iter().enumerate() {
        let got = e.begin_step(&mut store, &mut locks, id, 10).unwrap();
        assert_eq!(got, ProcedureStep::CreateTable(*step));
        assert!(store.get(id).unwrap().in_flight);
        let st = e.complete_step(&mut store, &mut locks, id, StepOutcome::Done, 10).unwrap();
        let want = if i == 2 { ProcedureStatus::Done } else { ProcedureStatus::Running };
        assert_eq!(st, want);
    }
    assert_eq!(store.status(id), Some(ProcedureStatus::Done));
    assert_eq!(locks.holder(5, 10), None);
    assert_eq!(e.begin_step(&mut store, &mut locks, id, 10), Err(ExecError::NotRunnable));
    assert!(e.recover(&store).is_empty());
}

#[test]
fn crash_after_persisting_intent_reruns_that_step_once() {
    let mut store = ProcedureStore::new();
    let mut locks = LockManager::new();
    {
        let old_leader = leader();
        let id = old_leader.submit(&mut store, ProcedureKind::RegionFailover, 9);
        old_leader.begin_step(&mut store, &mut locks, id, 0).unwrap();
        old_leader.complete_step(&mut store, &mut locks, id, StepOutcome::Done, 0).unwrap();
        assert_eq!(
            old_leader.begin_step(&mut store, &mut locks, id, 0),
            Ok(ProcedureStep::Failover(FailoverStep::SelectCandidate))
        );
        // the process dies here: intent of step 1 persisted, no result
    }
    let new_leader = leader();
    assert_eq!(new_leader.recover(&store), vec![0]);
    assert_eq!(
        new_leader.begin_step(&mut store, &mut locks, 0, 50),
        Ok(ProcedureStep::Failover(FailoverStep::SelectCandidate))
    );
    assert_eq!(
        new_leader.complete_step(&mut store, &mut locks, 0, StepOutcome::Done, 50),
        Ok(ProcedureStatus::Running)
    );
    assert_eq!(store.get(0).unwrap().step_index, 2);
    // a replayed completion of the same step is refused
    assert_eq!(
        new_leader.complete_step(&mut store, &mut locks, 0, StepOutcome::Done, 50),
        Err(ExecError::NotInFlight)
    );
    assert_eq!(store.get(0).unwrap().step_index, 2);
}

#[test]
fn failures_back_off_then_fail_the_procedure() {
    let e = leader();
    let mut store = ProcedureStore::new();
    let mut locks = LockManager::new();
    let id = e.submit(&mut store, ProcedureKind::RegionFailover, 1);
    e.begin_step(&mut store, &mut locks, id, 0).unwrap();
    assert_eq!(
        e.complete_step(&mut store, &mut locks, id, StepOutcome::Failed(11), 0),
        Ok(ProcedureStatus::Running)
    );
    let rec = store.get(id).unwrap();
    assert_eq!((rec.attempts, rec.retry_at, rec.last_error), (1, 100, Some(11)));
    assert_eq!(e.begin_step(&mut store, &mut locks, id, 99), Err(ExecError::BackingOff));
    e.begin_step(&mut store, &mut locks, id, 100).unwrap();
    e.complete_step(&mut store, &mut locks, id, StepOutcome::Failed(12), 100).unwrap();
    assert_eq!(store.get(id).unwrap().retry_at, 300);
    e.begin_step(&mut store, &mut locks, id, 300).unwrap();
    assert_eq!(
        e.complete_step(&mut store, &mut locks, id, StepOutcome::Failed(13), 300),
        Ok(ProcedureStatus::Failed)
    );
    let rec = store.get(id).unwrap();
    assert_eq!(rec.status, ProcedureStatus::Failed);
    assert_eq!(rec.last_error, Some(13));
    assert_eq!(rec.attempts, 3);
    assert_eq!(locks.holder(1, 300), None);
    // a failover has no rollback
    assert_eq!(
        e.begin_rollback(&mut store, &mut locks, id, 300),
        Err(ExecError::NotRollbackable)
    );
}

fn failed_create_table(e: &ProcedureExecutor, store: &mut ProcedureStore, locks: &mut LockManager) -> u64 {
    let id = e.submit(store, ProcedureKind::CreateTable, 3);
    let mut now = 0;
    loop {
        e.begin_step(store, locks, id, now).unwrap();
        if e.complete_step(store, locks, id, StepOutcome::Failed(1), now).unwrap()
            == ProcedureStatus::Failed
        {
            return id;
        }
        now += 1000;
    }
}

#[test]
fn rollback_success_is_rolled_back() {
    let e = leader();
    let mut store = ProcedureStore::new();
    let mut locks = LockManager::new();
    let id = failed_create_table(&e, &mut store, &mut locks);
    assert_eq!(
        e.complete_rollback(&mut store, &mut locks, id, true, 0),
        Err(ExecError::NotInFlight)
    );
    e.begin_rollback(&mut store, &mut locks, id, 5000).unwrap();
    assert_eq!(locks.holder(3, 5000).unwrap().owner_id, id);
    assert_eq!(
        e.complete_rollback(&mut store, &mut locks, id, true, 5000),
        Ok(ProcedureStatus::RolledBack)
    );
    assert_eq!(store.status(id), Some(ProcedureStatus::RolledBack));
    assert_eq!(locks.holder(3, 5000), None);
}

#[test]
fn rollback_failure_is_terminal() {
    let e = leader();
    let mut store = ProcedureStore::new();
    let mut locks = LockManager::new();
    let id = failed_create_table(&e, &mut store, &mut locks);
    e.begin_rollback(&mut store, &mut locks, id, 5000).unwrap();
    assert_eq!(
        e.complete_rollback(&mut store, &mut locks, id, false, 5000),
        Ok(ProcedureStatus::Failed)
    );
    assert!(store.get(id).unwrap().rollback_failed);
    assert_eq!(
        e.begin_rollback(&mut store, &mut locks, id, 6000),
        Err(ExecError::NotRollbackable)
    );
}

#[test]
fn demoted_executor_issues_nothing_and_records_nothing() {
    let mut e = leader();
    let mut store = ProcedureStore::new();
    let mut locks = LockManager::new();
    let id = e.submit(&mut store, ProcedureKind::CreateTable, 2);
    e.begin_step(&mut store, &mut locks, id, 0).unwrap();
    e.on_leader_event(LeaderEvent::LostLeadership);
    assert!(!e.is_active());
    assert_eq!(
        e.complete_step(&mut store, &mut locks, id, StepOutcome::Done, 1),
        Err(ExecError::NotLeader)
    );
    let rec = store.get(id).unwrap();
    assert!(rec.in_flight);
    assert_eq!(rec.step_index, 0);
    assert_eq!(e.begin_step(&mut store, &mut locks, id, 1), Err(ExecError::NotLeader));
    assert_eq!(e.wake(&mut store, id), Err(ExecError::NotLeader));
    e.on_leader_event(LeaderEvent::LeaderChanged(3, 2));
    assert!(!e.is_active());
}

#[test]
fn procedures_on_one_resource_are_serialized() {
    let e = leader();
    let mut store = ProcedureStore::new();
    let mut locks = LockManager::new();
    let a = e.submit(&mut store, ProcedureKind::CreateTable, 8);
    let b = e.submit(&mut store, ProcedureKind::CreateTable, 8);
    let c = e.submit(&mut store, ProcedureKind::CreateTable, 9);
    e.begin_step(&mut store, &mut locks, a, 0).unwrap();
    assert_eq!(e.begin_step(&mut store, &mut locks, b, 0), Err(ExecError::Conflict));
    assert!(e.begin_step(&mut store, &mut locks, c, 0).is_ok());
    for _ in 0..3 {
        e.complete_step(&mut store, &mut locks, a, StepOutcome::Done, 1).unwrap();
        let _ = e.begin_step(&mut store, &mut locks, a, 1);
    }
    assert_eq!(store.status(a), Some(ProcedureStatus::Done));
    assert!(e.begin_step(&mut store, &mut locks, b, 2).is_ok());
}

#[test]
fn suspended_procedure_wakes_up() {
    let e = leader();
    let mut store = ProcedureStore::new();
    let mut locks = LockManager::new();
    let id = e.submit(&mut store, ProcedureKind::CreateTable, 1);
    assert_eq!(e.wake(&mut store, id), Err(ExecError::NotSuspended));
    e.begin_step(&mut store, &mut locks, id, 0).unwrap();
    assert_eq!(
        e.complete_step(&mut store, &mut locks, id, StepOutcome::Suspended, 0),
        Ok(ProcedureStatus::Suspended)
    );
    assert_eq!(e.begin_step(&mut store, &mut locks, id, 0), Err(ExecError::NotRunnable));
    assert_eq!(e.recover(&store), vec![id]);
    assert_eq!(e.wake(&mut store, id), Ok(()));
    assert_eq!(
        e.begin_step(&mut store, &mut locks, id, 0),
        Ok(ProcedureStep::CreateTable(CreateTableStep::Prepare))
    );
}

#[test]
fn unknown_procedure_is_not_found() {
    let e = leader();
    let mut store = ProcedureStore::new();
    let mut locks = LockManager::new();
    assert_eq!(e.begin_step(&mut store, &mut locks, 0, 0), Err(ExecError::NotFound));
    assert_eq!(
        e.complete_step(&mut store, &mut locks, 3, StepOutcome::Done, 0),
        Err(ExecError::NotFound)
    );
    assert_eq!(store.status(0), None);
}

#[test]
fn finished_procedure_is_archived_after_retention() {
    let e = leader();
    let mut store = ProcedureStore::new();
    let mut locks = LockManager::new();
    let id = e.submit(&mut store, ProcedureKind::CreateTable, 4);
    assert_eq!(e.archive(&mut store, id, 0), Err(ExecError::NotFinished));
    for _ in 0..3 {
        e.begin_step(&mut store, &mut locks, id, 100).unwrap();
        e.complete_step(&mut store, &mut locks, id, StepOutcome::Done, 100).unwrap();
    }
    assert_eq!(store.get(id).unwrap().finished_at, 100);
    assert_eq!(e.archive(&mut store, id, 5099), Err(ExecError::RetentionPending));
    assert_eq!(e.archive(&mut store, id, 5100), Ok(()));
    assert!(store.get(id).unwrap().archived);
    assert_eq!(store.status(id), Some(ProcedureStatus::Done));
    assert_eq!(e.archive(&mut store, id, 9000), Err(ExecError::NotFinished));
}

#[test]
fn archived_failure_is_not_rolled_back() {
    let e = leader();
    let mut store = ProcedureStore::new();
    let mut locks = LockManager::new();
    let id = failed_create_table(&e, &mut store, &mut locks);
    let finished = store.get(id).unwrap().finished_at;
    assert_eq!(e.archive(&mut store, id, finished + 5000), Ok(()));
    assert_eq!(
        e.begin_rollback(&mut store, &mut locks, id, finished + 6000),
        Err(ExecError::NotRollbackable)
    );
}
