use std::collections::HashMap;

use meta_srv::election::{
    ElectionConfig, ElectionState, Elector, LeaderEvent, LeaderInfo, LeaderStore,
};
use meta_srv::lock::LockManager;
use meta_srv::procedure::{
    ExecutorConfig, ProcedureExecutor, ProcedureKind, ProcedureStatus, ProcedureStore,
    StepOutcome,
};

fn config() -> ElectionConfig {
    ElectionConfig::new(2000, 500).unwrap()
}

#[test]
fn config_requires_three_renewals_per_ttl() {
    assert!(ElectionConfig::new(2000, 500).is_some());
    assert!(ElectionConfig::new(1500, 500).is_some());
    assert!(ElectionConfig::new(1499, 500).is_none());
    assert!(ElectionConfig::new(2000, 0).is_none());
}

#[test]
fn first_campaign_on_empty_key_wins_term_one() {
    let mut store = LeaderStore::new();
    let mut e = Elector::new(1, config());
    let seen = store.get();
    assert_eq!(e.campaign(&mut store, seen, 0), Some(LeaderEvent::BecameLeader(1)));
    assert_eq!(e.state(), ElectionState::Leader);
    let rec = store.get().unwrap();
    assert_eq!((rec.leader_id, rec.term, rec.expire_at, rec.resigned), (1, 1, 2000, false));
}

#[test]
fn concurrent_campaigns_over_one_observation_have_one_winner() {
    let mut store = LeaderStore::new();
    let mut electors: Vec<Elector> = (1..=5).map(|id| Elector::new(id, config())).collect();
    let seen = store.get();
    let mut winners = 0;
    for e in electors.iter_mut() {
        if let Some(LeaderEvent::BecameLeader(term)) = e.campaign(&mut store, seen, 100) {
            assert_eq!(term, 1);
            winners += 1;
        }
    }
    assert_eq!(winners, 1);
    assert_eq!(electors.iter().filter(|e| e.is_leader()).count(), 1);
    for e in electors.iter().skip(1) {
        assert_eq!(e.state(), ElectionState::Follower);
        assert_eq!(e.leader(), Some(LeaderInfo { leader_id: 1, term: 1 }));
    }
}

#[test]
fn at_most_one_leader_per_term_under_interleavings() {
    let mut store = LeaderStore::new();
    let mut electors: Vec<Elector> = (0..4).map(|id| Elector::new(id, config())).collect();
    let mut seen: Vec<_> = (0..4).map(|_| store.get()).collect();
    let mut leaders: HashMap<u64, u64> = HashMap::new();
    let mut rng: u64 = 12345;
    let mut now: u64 = 0;
    for _ in 0..4000 {
        rng = rng.wrapping_mul(6364136223846793005).wrapping_add(1442695040888963407);
        let who = ((rng >> 33) % 4) as usize;
        let action = (rng >> 40) % 5;
        now += (rng >> 50) % 400;
        let e = &mut electors[who];
        match action {
            0 => seen[who] = store.get(),
            1 => {
                e.campaign(&mut store, seen[who], now);
            }
            2 => {
                e.renew(&mut store, now);
            }
            3 => {
                e.observe(&store, now);
            }
            _ => {
                if (rng >> 20) % 7 == 0 {
                    e.resign(&mut store, now);
                }
            }
        }
        for e in electors.iter() {
            if e.is_leader() {
                let term = e.leader().unwrap().term;
                let id = *leaders.entry(term).or_insert(e.id());
                assert_eq!(id, e.id(), "two leaders for term {}", term);
            }
        }
    }
    assert!(leaders.len() > 1);
}

#[test]
fn renewal_failure_demotes_and_notifies() {
    let mut store = LeaderStore::new();
    let mut a = Elector::new(1, config());
    let mut b = Elector::new(2, config());
    let seen = store.get();
    a.campaign(&mut store, seen, 0);
    // a misses every renewal; b takes over once the lease lapses
    let seen = store.get();
    assert_eq!(
        b.campaign(&mut store, seen, 2001),
        Some(LeaderEvent::BecameLeader(2))
    );
    assert_eq!(a.renew(&mut store, 2100), Some(LeaderEvent::LostLeadership));
    assert_eq!(a.state(), ElectionState::Candidate);
    assert_eq!(a.observe(&store, 2200), Some(LeaderEvent::LeaderChanged(2, 2)));
    assert_eq!(a.state(), ElectionState::Follower);
    assert_eq!(a.observe(&store, 2300), None);
}

#[test]
fn renewal_extends_the_lease() {
    let mut store = LeaderStore::new();
    let mut a = Elector::new(1, config());
    let seen = store.get();
    a.campaign(&mut store, seen, 0);
    assert_eq!(a.renew(&mut store, 500), None);
    assert_eq!(store.get().unwrap().expire_at, 2500);
    assert!(a.is_leader());
}

#[test]
fn resignation_frees_the_key_for_the_next_term() {
    let mut store = LeaderStore::new();
    let mut a = Elector::new(1, config());
    let mut b = Elector::new(2, config());
    let seen = store.get();
    a.campaign(&mut store, seen, 0);
    assert_eq!(a.resign(&mut store, 10), Some(LeaderEvent::LostLeadership));
    assert!(store.get().unwrap().resigned);
    let seen = store.get();
    assert_eq!(b.campaign(&mut store, seen, 20), Some(LeaderEvent::BecameLeader(2)));
    // resigning when not leader does nothing
    assert_eq!(a.resign(&mut store, 30), None);
}

#[test]
fn stale_observation_loses_the_swap() {
    let mut store = LeaderStore::new();
    let mut a = Elector::new(1, config());
    let mut b = Elector::new(2, config());
    let stale = store.get();
    a.campaign(&mut store, stale, 0);
    assert_eq!(b.campaign(&mut store, stale, 0), Some(LeaderEvent::LeaderChanged(1, 1)));
    assert!(!b.is_leader());
}

#[test]
fn leader_killed_is_replaced_within_a_ttl_and_procedures_resume() {
    let cfg = config();
    let mut store = LeaderStore::new();
    let mut electors: Vec<Elector> = (1..=3).map(|id| Elector::new(id, cfg)).collect();
    let mut alive = [true, true, true];
    let exec_cfg = ExecutorConfig {
        max_attempts: 3,
        base_backoff: 100,
        max_backoff: 1000,
        lock_ttl: 2000,
        retention: 60_000,
    };
    let mut executors: Vec<ProcedureExecutor> =
        (0..3).map(|_| ProcedureExecutor::new(exec_cfg).unwrap()).collect();
    let mut procs = ProcedureStore::new();
    let mut locks = LockManager::new();
    let mut killed_at: Option<u64> = None;
    let mut new_leader_at: Option<u64> = None;
    let mut resumed_at: Option<u64> = None;
    let mut t: u64 = 0;
    while t <= 20_000 {
        for i in 0..3 {
            if !alive[i] {
                continue;
            }
            let ev = if electors[i].is_leader() {
                electors[i].renew(&mut store, t)
            } else {
                let seen = store.get();
                electors[i].campaign(&mut store, seen, t)
            };
            if let Some(ev) = ev {
                executors[i].on_leader_event(ev);
                if let LeaderEvent::BecameLeader(_) = ev {
                    if killed_at.is_some() && new_leader_at.is_none() {
                        new_leader_at = Some(t);
                    }
                }
            }
            if executors[i].is_active() {
                if t == 1000 && killed_at.is_none() {
                    let id = executors[i].submit(&mut procs, ProcedureKind::RegionFailover, 77);
                    executors[i].begin_step(&mut procs, &mut locks, id, t).unwrap();
                }
                // one polling cycle: resume whatever the store says is running
                for id in executors[i].recover(&procs) {
                    if killed_at.is_some() && procs.get(id).unwrap().in_flight {
                        executors[i].begin_step(&mut procs, &mut locks, id, t).unwrap();
                        executors[i]
                            .complete_step(&mut procs, &mut locks, id, StepOutcome::Done, t)
                            .unwrap();
                        if resumed_at.is_none() {
                            resumed_at = Some(t);
                        }
                    }
                }
            }
        }
        if t == 3000 {
            let leader = (0..3).find(|&i| electors[i].is_leader()).unwrap();
            alive[leader] = false;
            killed_at = Some(t);
        }
        t += 500;
    }
    let killed = killed_at.unwrap();
    let elected = new_leader_at.unwrap();
    assert!(elected > killed);
    assert!(elected - killed <= 3000);
    assert_eq!(resumed_at, Some(elected));
    let rec = procs.get(0).unwrap();
    assert_eq!(rec.step_index, 1);
    assert_eq!(procs.status(0), Some(ProcedureStatus::Running));
    let leaders = (0..3).filter(|&i| alive[i] && electors[i].is_leader()).count();
    assert_eq!(leaders, 1);
}
