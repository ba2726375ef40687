use gbcache::barrier::DrainBarrier;
use gbcache::generation::Generation;
use gbcache::pending::PendingLog;
use gbcache::rwcache::RwCache;
use gbcache::store::DualStore;

#[test]
fn store_buffers_are_independent() {
    let mut store = DualStore::new();
    assert_eq!(store.read(0, &1), None);
    assert_eq!(store.read(1, &1), None);
    store.write(0, 1, 100);
    assert_eq!(store.read(0, &1), Some(100));
    assert_eq!(store.read(1, &1), None);
    store.write(1, 1, 200);
    store.write(1, 2, 300);
    assert_eq!(store.read(0, &1), Some(100));
    assert_eq!(store.read(1, &1), Some(200));
    assert_eq!(store.read(0, &2), None);
    assert_eq!(store.len(0), 1);
    assert_eq!(store.len(1), 2);
}

#[test]
fn store_write_replaces() {
    let mut store = DualStore::with_capacity(8);
    assert_eq!(store.len(0), 0);
    assert_eq!(store.len(1), 0);
    store.write(0, 5, 1);
    store.write(0, 5, 2);
    assert_eq!(store.read(0, &5), Some(2));
    assert_eq!(store.len(0), 1);
}

#[test]
fn generation_starts_at_zero_and_flips() {
    let mut generation = Generation::new();
    assert_eq!(generation.current(), 0);
    assert_eq!(generation.staging(), 1);
    assert_eq!(generation.swap(), 0);
    assert_eq!(generation.current(), 1);
    assert_eq!(generation.staging(), 0);
    assert_eq!(generation.swap(), 1);
    assert_eq!(generation.current(), 0);
    assert_eq!(generation.current() + generation.staging(), 1);
}

#[test]
fn log_keeps_append_order_and_duplicates() {
    let mut log = PendingLog::new();
    assert_eq!(log.len(), 0);
    log.append(1, 10);
    log.append(2, 20);
    log.append(1, 11);
    assert_eq!(log.len(), 3);
    assert_eq!(log.drain_and_clear(), vec![(1, 10), (2, 20), (1, 11)]);
    assert_eq!(log.len(), 0);
    assert_eq!(log.drain_and_clear(), Vec::<(i32, i32)>::new());
    log.append(3, 30);
    assert_eq!(log.drain_and_clear(), vec![(3, 30)]);
}

#[test]
fn log_with_capacity_is_empty() {
    let mut log = PendingLog::with_capacity(32);
    assert_eq!(log.len(), 0);
    assert_eq!(log.drain_and_clear(), Vec::<(i32, i32)>::new());
}

#[test]
fn barrier_counts_leases_per_buffer() {
    let mut barrier = DrainBarrier::new();
    assert!(barrier.is_drained(0));
    assert!(barrier.is_drained(1));
    barrier.acquire(0);
    barrier.acquire(0);
    barrier.acquire(1);
    assert_eq!(barrier.readers(0), 2);
    assert_eq!(barrier.readers(1), 1);
    assert!(!barrier.is_drained(0));
    barrier.release(0);
    assert!(!barrier.is_drained(0));
    barrier.release(0);
    assert!(barrier.is_drained(0));
    assert!(!barrier.is_drained(1));
    barrier.release(1);
    assert!(barrier.is_drained(1));
}

#[test]
fn single_buffer_cache_shows_writes_at_once() {
    let mut cache = RwCache::default();
    assert_eq!(cache.get(&1), None);
    assert_eq!(cache.status(), 0);
    assert_eq!(cache.put(1, 100), Ok(()));
    assert_eq!(cache.get(&1), Some(100));
    assert_eq!(cache.put(2, 200), Ok(()));
    assert_eq!(cache.put(1, 101), Ok(()));
    assert_eq!(cache.get(&1), Some(101));
    assert_eq!(cache.get(&2), Some(200));
    assert_eq!(cache.get(&3), None);
    assert_eq!(cache.status(), 2);
}
