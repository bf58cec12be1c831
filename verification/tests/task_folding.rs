use typst_ts_cli::task::{FutureFolder, SpawnAction};

#[test]
fn first_request_starts_a_worker() {
    let mut f = FutureFolder::default();
    assert!(!f.is_running());
    assert_eq!(f.spawn(1), SpawnAction::StoreAndStart);
    assert!(f.is_running());
    assert_eq!(f.pending_revision(), Some(1));
}

#[test]
fn newer_request_replaces_pending() {
    let mut f = FutureFolder::default();
    f.spawn(1);
    assert_eq!(f.spawn(3), SpawnAction::Replace);
    assert_eq!(f.pending_revision(), Some(3));
}

#[test]
fn older_or_same_request_is_discarded() {
    let mut f = FutureFolder::default();
    f.spawn(5);
    assert_eq!(f.spawn(4), SpawnAction::Discard);
    assert_eq!(f.spawn(5), SpawnAction::Discard);
    assert_eq!(f.pending_revision(), Some(5));
}

#[test]
fn running_worker_takes_stored_requests() {
    let mut f = FutureFolder::default();
    f.spawn(1);
    assert_eq!(f.next_task(), Some(1));
    assert!(f.is_running());
    assert_eq!(f.spawn(0), SpawnAction::Store);
    assert_eq!(f.next_task(), Some(0));
    assert_eq!(f.next_task(), None);
    assert!(!f.is_running());
    assert_eq!(f.spawn(2), SpawnAction::StoreAndStart);
}

#[test]
fn requests_fold_to_newest_in_any_order() {
    let mut a = FutureFolder::default();
    a.spawn(2);
    a.spawn(7);
    a.spawn(4);
    let mut b = FutureFolder::default();
    b.spawn(4);
    b.spawn(2);
    b.spawn(7);
    assert_eq!(a.pending_revision(), Some(7));
    assert_eq!(b.pending_revision(), Some(7));
    assert_eq!(a.is_running(), b.is_running());
}
