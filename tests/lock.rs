use meta_srv::lock::{LockError, LockManager};

#[test]
fn two_owners_exactly_one_acquires() {
    let mut m = LockManager::new();
    let a = m.acquire(42, 1, 100, 0);
    let b = m.acquire(42, 2, 100, 0);
    assert!(a.is_ok());
    assert_eq!(b, Err(LockError::Conflict));
    assert_eq!(m.holder(42, 0), Some(a.unwrap()));
}

#[test]
fn same_owner_refreshes_before_expiry() {
    let mut m = LockManager::new();
    let a = m.acquire(1, 1, 10, 0).unwrap();
    let b = m.acquire(1, 1, 10, 5).unwrap();
    assert_eq!(b.fence, a.fence);
    assert_eq!(b.acquired_at, 5);
    assert_eq!(m.holder(1, 15), Some(b));
    assert_eq!(m.holder(1, 16), None);
}

#[test]
fn expired_lock_can_be_taken_by_another_owner() {
    let mut m = LockManager::new();
    let a = m.acquire(1, 1, 10, 0).unwrap();
    let b = m.acquire(1, 2, 10, 11).unwrap();
    assert_eq!(b.owner_id, 2);
    assert!(b.fence > a.fence);
    // the delayed release of the earlier holder must not free the new one
    assert_eq!(m.release(1, a, 12), Err(LockError::NotOwner));
    assert_eq!(m.holder(1, 12), Some(b));
}

#[test]
fn release_with_mismatched_token_fails() {
    let mut m = LockManager::new();
    let a = m.acquire(9, 3, 10, 0).unwrap();
    let mut forged = a;
    forged.owner_id = 4;
    assert_eq!(m.release(9, forged, 1), Err(LockError::NotOwner));
    assert_eq!(m.release(8, a, 1), Err(LockError::NotOwner));
    assert_eq!(m.release(9, a, 1), Ok(()));
    assert_eq!(m.holder(9, 1), None);
    assert_eq!(m.release(9, a, 1), Err(LockError::NotOwner));
}

#[test]
fn release_of_lapsed_token_is_expired() {
    let mut m = LockManager::new();
    let a = m.acquire(9, 3, 10, 0).unwrap();
    assert_eq!(m.release(9, a, 11), Err(LockError::Expired));
}

#[test]
fn locks_on_different_names_are_independent() {
    let mut m = LockManager::new();
    assert!(m.acquire(1, 1, 10, 0).is_ok());
    assert!(m.acquire(2, 2, 10, 0).is_ok());
    assert_eq!(m.next_fence(), 2);
}

#[test]
fn contenders_for_a_lock_one_of_them_holds_exactly_one_wins() {
    let mut m = LockManager::new();
    m.acquire(42, 2, 100, 0).unwrap();
    assert_eq!(m.acquire(42, 1, 100, 10), Err(LockError::Conflict));
    let b = m.acquire(42, 2, 100, 20).unwrap();
    assert_eq!(m.holder(42, 20), Some(b));
    // a third owner holding the lock turns both away
    let mut n = LockManager::new();
    n.acquire(7, 3, 100, 0).unwrap();
    assert_eq!(n.acquire(7, 1, 100, 10), Err(LockError::Conflict));
    assert_eq!(n.acquire(7, 2, 100, 10), Err(LockError::Conflict));
}
