use ipblock::coordinator::TickStatus;
use ipblock::coordinator::refresh_due;
use ipblock::coordinator::tick;
use ipblock::snapshot::BlockedIPs;
use ipblock::store::StoreState;
use ipblock::store::encode_last_update;
use ipblock::store::read_last_update;

const PAYLOAD: &str = "24.152.57.0/24\n24.232.0.0/16\n45.4.92.0/22";

#[test]
fn first_tick_commits_and_syncs() {
    let mut snap = BlockedIPs::new();
    let mut store = StoreState::new();
    let st = tick(&mut snap, &mut store, 1000, 600, true, true, 200, PAYLOAD);
    assert_eq!(st, TickStatus::Committed);
    assert_eq!(store.last_update, Some(1000));
    assert_eq!(store.data.as_deref(), Some(PAYLOAD));
    assert_eq!(snap.last_update(), Some(1000));
    assert!(!snap.allowed("45.4.93.10"));
}

#[test]
fn fetch_failure_leaves_everything_unchanged() {
    let mut snap = BlockedIPs::new();
    let mut store = StoreState::new();
    tick(&mut snap, &mut store, 1000, 600, true, true, 200, PAYLOAD);
    let st = tick(&mut snap, &mut store, 2000, 600, true, true, 503, "6.6.6.0/24");
    assert_eq!(st, TickStatus::FetchFailed { status: 503 });
    assert_eq!(store.last_update, Some(1000));
    assert_eq!(store.data.as_deref(), Some(PAYLOAD));
    assert_eq!(snap.last_update(), Some(1000));
    assert!(snap.allowed("6.6.6.1"));
    assert!(!snap.allowed("45.4.93.10"));
    // the next due check is throttled exactly as before the failure
    assert!(!refresh_due(1600, store.last_update, 600));
    assert!(refresh_due(1601, store.last_update, 600));
}

#[test]
fn lock_lost_discards_the_result() {
    let mut snap = BlockedIPs::new();
    let mut store = StoreState::new();
    let st = tick(&mut snap, &mut store, 1000, 600, true, false, 200, PAYLOAD);
    assert_eq!(st, TickStatus::LockLost);
    assert_eq!(store.last_update, None);
    assert_eq!(store.data, None);
    assert_eq!(snap.last_update(), None);
    assert!(snap.allowed("45.4.93.10"));
}

#[test]
fn lock_busy_skips_the_fetch() {
    let mut snap = BlockedIPs::new();
    let mut store = StoreState::new();
    let st = tick(&mut snap, &mut store, 1000, 600, false, false, 0, "");
    assert_eq!(st, TickStatus::LockBusy);
    assert_eq!(store.last_update, None);
    assert_eq!(snap.last_update(), None);
}

#[test]
fn throttling_between_commits() {
    let mut snap = BlockedIPs::new();
    let mut store = StoreState::new();
    tick(&mut snap, &mut store, 1000, 600, true, true, 200, PAYLOAD);
    // well within the frequency window: no fetch even with everything at hand
    let st = tick(&mut snap, &mut store, 1500, 600, true, true, 200, "6.6.6.0/24");
    assert_eq!(st, TickStatus::Skipped);
    assert_eq!(store.last_update, Some(1000));
    // one second past the window: the fetch happens and commits
    let st = tick(&mut snap, &mut store, 1601, 600, true, true, 200, "6.6.6.0/24");
    assert_eq!(st, TickStatus::Committed);
    assert_eq!(store.last_update, Some(1601));
    assert!(!snap.allowed("6.6.6.1"));
    assert!(snap.allowed("45.4.93.10"));
}

#[test]
fn workers_converge_after_one_commit() {
    let mut a = BlockedIPs::new();
    let mut b = BlockedIPs::new();
    let mut store = StoreState::new();
    // worker a wins the lock and commits; worker b finds the lock busy
    tick(&mut a, &mut store, 1000, 600, true, true, 200, PAYLOAD);
    tick(&mut b, &mut store, 1001, 600, false, false, 0, "");
    assert_eq!(a.last_update(), b.last_update());
    for p in ["24.152.57.77", "45.4.93.10", "23.152.57.50", "45.4.96.1"] {
        assert_eq!(a.allowed(p), b.allowed(p));
    }
}

#[test]
fn sync_is_idempotent() {
    let mut snap = BlockedIPs::new();
    assert!(snap.sync(Some(5), Some("10.0.0.0/8")));
    assert_eq!(snap.last_update(), Some(5));
    assert!(!snap.allowed("10.1.2.3"));
    assert!(!snap.sync(Some(5), Some("192.168.0.0/16")));
    assert_eq!(snap.last_update(), Some(5));
    assert!(!snap.allowed("10.1.2.3"));
    assert!(snap.allowed("192.168.0.1"));
}

#[test]
fn sync_tolerates_missing_keys() {
    let mut snap = BlockedIPs::new();
    assert!(!snap.sync(None, Some("10.0.0.0/8")));
    assert_eq!(snap.last_update(), None);
    assert!(snap.allowed("10.1.2.3"));
    // a fresh timestamp whose payload has not appeared yet: retry next tick
    assert!(!snap.sync(Some(9), None));
    assert_eq!(snap.last_update(), None);
}

#[test]
fn timestamp_round_trip() {
    let bytes = encode_last_update(7);
    assert_eq!(read_last_update(Some(&bytes)), Some(7));
    let bytes = encode_last_update(u64::MAX);
    assert_eq!(read_last_update(Some(&bytes)), Some(u64::MAX));
    assert_eq!(read_last_update(None), None);
    assert_eq!(read_last_update(Some(&vec![b'x'])), None);
    assert_eq!(read_last_update(Some(&Vec::new())), None);
}
