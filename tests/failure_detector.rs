use meta_srv::failure_detector::{
    score, DetectorConfig, FailureDetector, FailureRecord, LivenessEvent,
};

fn cfg() -> DetectorConfig {
    DetectorConfig { window: 10, grace: 5000, min_spread: 100, dead_threshold: 8, alive_threshold: 3 }
}

#[test]
fn score_counts_spreads_above_the_mean() {
    let c = cfg();
    let h = vec![1000u64, 1200, 800];
    // mean 1000, mean absolute deviation 400 / 3 = 133
    assert_eq!(score(&h, 1500, &c), 3);
    assert_eq!(score(&h, 1000, &c), 0);
    assert_eq!(score(&h, 900, &c), 0);
    // a regular stream has no deviation: the floor of 100 applies
    let steady = vec![1000u64; 9];
    assert_eq!(score(&steady, 1500, &c), 5);
    assert_eq!(score(&steady, 5000, &c), 40);
    assert_eq!(score(&steady, 5001, &c), u64::MAX);
    assert_eq!(score(&Vec::new(), 5000, &c), 0);
    assert_eq!(score(&Vec::new(), 5001, &c), u64::MAX);
}

#[test]
fn invalid_configurations_are_refused() {
    assert!(FailureDetector::new(cfg()).is_some());
    assert!(FailureDetector::new(DetectorConfig { window: 0, ..cfg() }).is_none());
    assert!(FailureDetector::new(DetectorConfig { min_spread: 0, ..cfg() }).is_none());
    assert!(FailureDetector::new(DetectorConfig { alive_threshold: 9, ..cfg() }).is_none());
    assert!(FailureDetector::new(DetectorConfig { dead_threshold: u64::MAX, ..cfg() }).is_none());
}

#[test]
fn peer_without_history_is_alive_through_the_grace_period() {
    let c = cfg();
    let mut p = FailureRecord::new(4, 0);
    assert_eq!(p.check(5000, &c), None);
    assert!(p.is_alive());
    assert_eq!(p.check(5001, &c), Some(LivenessEvent::PeerDead(4)));
    assert!(!p.is_alive());
}

#[test]
fn gap_after_steady_stream_turns_dead_exactly_once() {
    let c = cfg();
    let mut p = FailureRecord::new(1, 0);
    for t in (1000..=9000).step_by(1000) {
        assert_eq!(p.heartbeat(t, &c), None);
        assert_eq!(p.check(t + 500, &c), None);
    }
    assert_eq!(p.check(10_500, &c), None);
    let mut dead_events = 0;
    for t in (11_000..=16_000).step_by(250) {
        if let Some(ev) = p.check(t, &c) {
            assert_eq!(ev, LivenessEvent::PeerDead(1));
            dead_events += 1;
        }
    }
    assert_eq!(dead_events, 1);
    assert!(!p.is_alive());
    // the heartbeat that ends the gap does not bring the peer back
    assert_eq!(p.heartbeat(16_000, &c), None);
    assert!(!p.is_alive());
    assert_eq!(p.check(16_100, &c), None);
    // a regular interval afterwards scores low and does
    assert_eq!(p.heartbeat(17_000, &c), Some(LivenessEvent::PeerAlive(1)));
    assert!(p.is_alive());
}

#[test]
fn late_heartbeat_within_grace_stays_dead_when_it_scores_high() {
    let c = DetectorConfig { grace: 100_000, ..cfg() };
    let mut p = FailureRecord::new(2, 0);
    for t in (1000..=10_000).step_by(1000) {
        p.heartbeat(t, &c);
    }
    // 9 spreads above the mean: dead
    assert_eq!(p.check(11_901, &c), Some(LivenessEvent::PeerDead(2)));
    // the interval of 2000 that ends it scores 10: not below 3
    assert_eq!(p.heartbeat(12_000, &c), None);
    assert!(!p.is_alive());
}

#[test]
fn out_of_order_heartbeat_is_ignored() {
    let c = cfg();
    let mut p = FailureRecord::new(3, 1000);
    assert_eq!(p.heartbeat(500, &c), None);
    assert_eq!(p.last_heartbeat(), 1000);
}

#[test]
fn detector_tracks_peers_and_reports_each_death() {
    let mut d = FailureDetector::new(cfg()).unwrap();
    assert_eq!(d.on_heartbeat(1, 0), None);
    assert_eq!(d.on_heartbeat(2, 0), None);
    assert_eq!(d.len(), 2);
    assert_eq!(d.on_heartbeat(2, 1000), None);
    assert_eq!(d.is_alive(1), Some(true));
    assert_eq!(d.is_alive(9), None);
    assert_eq!(d.on_heartbeat(2, 5000), None);
    // peer 1 has been silent past the grace period; peer 2 just spoke
    assert_eq!(d.check_all(5500), vec![LivenessEvent::PeerDead(1)]);
    assert_eq!(d.check_all(10_001), vec![LivenessEvent::PeerDead(2)]);
    assert_eq!(d.check_all(11_000), vec![]);
    assert_eq!(d.is_alive(1), Some(false));
    assert_eq!(d.len(), 2);
}
