use meta_srv::registry::{PeerRegistry, Role};

#[test]
fn first_heartbeat_registers_and_later_ones_renew() {
    let mut r = PeerRegistry::new(1000);
    let l1 = r.on_heartbeat(7, "10.0.0.7:4001".to_string(), Role::Datanode, 0);
    assert_eq!(l1.expire_at, 1000);
    assert_eq!(r.len(), 1);
    assert_eq!(r.lookup(7), Some((Role::Datanode, l1.fencing_token)));
    let l2 = r.on_heartbeat(7, "10.0.0.7:4001".to_string(), Role::Datanode, 500);
    assert_eq!(l2.fencing_token, l1.fencing_token);
    assert_eq!(l2.expire_at, 1500);
    assert_eq!(r.len(), 1);
    assert_eq!(r.lookup(8), None);
}

#[test]
fn peers_with_lapsed_leases_are_pruned_in_order() {
    let mut r = PeerRegistry::new(1000);
    r.on_heartbeat(1, "a:1".to_string(), Role::Datanode, 0);
    r.on_heartbeat(2, "b:1".to_string(), Role::Frontend, 0);
    r.on_heartbeat(3, "c:1".to_string(), Role::Meta, 600);
    r.on_heartbeat(2, "b:1".to_string(), Role::Frontend, 700);
    assert_eq!(r.prune(1000), Vec::<u64>::new());
    assert_eq!(r.prune(1001), vec![1]);
    assert_eq!(r.len(), 2);
    assert_eq!(r.lookup(1), None);
    assert_eq!(r.prune(1701), vec![2, 3]);
    assert_eq!(r.len(), 0);
}

#[test]
fn peer_back_after_lapse_gets_a_new_lease() {
    let mut r = PeerRegistry::new(100);
    let a = r.on_heartbeat(5, "x:1".to_string(), Role::Datanode, 0);
    assert_eq!(r.prune(200), vec![5]);
    let b = r.on_heartbeat(5, "x:2".to_string(), Role::Datanode, 300);
    assert!(b.fencing_token > a.fencing_token);
    assert_eq!(r.lookup(5), Some((Role::Datanode, b.fencing_token)));
}
