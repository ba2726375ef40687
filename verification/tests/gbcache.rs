use gbcache::error::CacheError;
use gbcache::gbcache::{CacheStatus, GreenBlueCache};
use gbcache::store::MAX_CAPACITY;

#[test]
fn example_scenario() {
    let mut cache = GreenBlueCache::default();
    assert_eq!(cache.put(1, 100), Ok(()));
    assert_eq!(cache.get_one(&1), None);
    assert_eq!(cache.flush(), Ok(()));
    assert_eq!(cache.get_one(&1), Some(100));
    assert_eq!(cache.put(2, 200), Ok(()));
    assert_eq!(cache.put(3, 300), Ok(()));
    assert_eq!(cache.flush(), Ok(()));
    assert_eq!(cache.get_one(&1), Some(100));
    assert_eq!(cache.get_one(&2), Some(200));
    assert_eq!(cache.get_one(&3), Some(300));
    assert_eq!(cache.get(&[1, 2, 3]), vec![Some(100), Some(200), Some(300)]);
}

#[test]
fn empty_cache_reads_nothing() {
    let cache = GreenBlueCache::default();
    assert_eq!(cache.get_one(&1), None);
    assert_eq!(cache.get_one(&0), None);
    assert_eq!(cache.get_one(&i32::MIN), None);
    assert_eq!(cache.get_one(&i32::MAX), None);
    assert_eq!(cache.get(&[1, 2, 3]), vec![None, None, None]);
    assert_eq!(cache.read_leased(0, &1), None);
    assert_eq!(cache.read_leased(1, &1), None);
}

#[test]
fn empty_cache_with_capacity_reads_nothing() {
    let cache = GreenBlueCache::with_capacity(16);
    assert_eq!(cache.get_one(&1), None);
    assert_eq!(cache.get(&[5, 6]), vec![None, None]);
    let status = cache.status();
    assert_eq!(status.green_items, 0);
    assert_eq!(status.blue_items, 0);
    assert_eq!(status.pending, 0);
    assert_eq!(status.current, 0);
}

#[test]
fn capacity_zero_and_large_are_accepted() {
    let mut small = GreenBlueCache::with_capacity(0);
    assert_eq!(small.put(1, 1), Ok(()));
    assert_eq!(small.flush(), Ok(()));
    assert_eq!(small.get_one(&1), Some(1));
    assert!(100_000 <= MAX_CAPACITY);
    let mut large = GreenBlueCache::with_capacity(100_000);
    assert_eq!(large.put(2, 2), Ok(()));
    assert_eq!(large.flush(), Ok(()));
    assert_eq!(large.get_one(&2), Some(2));
}

#[test]
fn empty_batch_gives_empty_answer() {
    let cache = GreenBlueCache::default();
    assert_eq!(cache.get(&[]), Vec::<Option<i32>>::new());
}

#[test]
fn put_is_invisible_until_flush() {
    let mut cache = GreenBlueCache::default();
    assert_eq!(cache.put(1, 100), Ok(()));
    assert_eq!(cache.get_one(&1), None);
    assert_eq!(cache.get(&[1]), vec![None]);
    assert_eq!(cache.flush(), Ok(()));
    assert_eq!(cache.put(1, 101), Ok(()));
    assert_eq!(cache.get_one(&1), Some(100));
    assert_eq!(cache.flush(), Ok(()));
    assert_eq!(cache.get_one(&1), Some(101));
}

#[test]
fn read_after_flush_is_complete() {
    let mut cache = GreenBlueCache::default();
    let mut key = 1;
    while key <= 50 {
        assert_eq!(cache.put(key, 100 * key), Ok(()));
        key += 1;
    }
    assert_eq!(cache.flush(), Ok(()));
    let mut key = 1;
    while key <= 50 {
        assert_eq!(cache.get_one(&key), Some(100 * key));
        assert_eq!(cache.read_leased(0, &key), Some(100 * key));
        assert_eq!(cache.read_leased(1, &key), Some(100 * key));
        key += 1;
    }
    assert_eq!(cache.flush(), Ok(()));
    let mut key = 1;
    while key <= 50 {
        assert_eq!(cache.get_one(&key), Some(100 * key));
        assert_eq!(cache.read_leased(0, &key), Some(100 * key));
        assert_eq!(cache.read_leased(1, &key), Some(100 * key));
        key += 1;
    }
}

#[test]
fn two_flushes_converge() {
    let mut cache = GreenBlueCache::default();
    assert_eq!(cache.put(1, 100), Ok(()));
    assert_eq!(cache.flush(), Ok(()));
    assert_eq!(cache.put(2, 200), Ok(()));
    assert_eq!(cache.put(1, 111), Ok(()));
    assert_eq!(cache.flush(), Ok(()));
    assert_eq!(cache.flush(), Ok(()));
    for key in [1, 2, 3] {
        assert_eq!(cache.read_leased(0, &key), cache.read_leased(1, &key));
    }
    let status = cache.status();
    assert_eq!(status.green_items, 2);
    assert_eq!(status.blue_items, 2);
    assert_eq!(status.pending, 0);
    assert_eq!(status.current, 1);
}

#[test]
fn last_write_wins() {
    let mut cache = GreenBlueCache::default();
    assert_eq!(cache.put(7, 1), Ok(()));
    assert_eq!(cache.put(7, 2), Ok(()));
    assert_eq!(cache.flush(), Ok(()));
    assert_eq!(cache.get_one(&7), Some(2));
    assert_eq!(cache.flush(), Ok(()));
    assert_eq!(cache.get_one(&7), Some(2));
}

#[test]
fn last_write_wins_across_generations() {
    let mut cache = GreenBlueCache::default();
    assert_eq!(cache.put(7, 1), Ok(()));
    assert_eq!(cache.flush(), Ok(()));
    assert_eq!(cache.put(7, 2), Ok(()));
    assert_eq!(cache.put(8, 5), Ok(()));
    assert_eq!(cache.put(7, 3), Ok(()));
    assert_eq!(cache.flush(), Ok(()));
    assert_eq!(cache.get(&[7, 8]), vec![Some(3), Some(5)]);
    assert_eq!(cache.read_leased(0, &7), Some(3));
    assert_eq!(cache.read_leased(1, &7), Some(3));
}

#[test]
fn batch_keeps_the_order_of_the_keys() {
    let mut cache = GreenBlueCache::default();
    assert_eq!(cache.put(1, 10), Ok(()));
    assert_eq!(cache.put(2, 20), Ok(()));
    assert_eq!(cache.flush(), Ok(()));
    assert_eq!(
        cache.get(&[2, 9, 1, 2, 1]),
        vec![Some(20), None, Some(10), Some(20), Some(10)]
    );
}

#[test]
fn second_flush_in_flight_cannot_switch() {
    let mut cache = GreenBlueCache::default();
    assert_eq!(cache.put(1, 100), Ok(()));
    assert_eq!(cache.begin_flush(), Ok(0));
    assert_eq!(cache.begin_flush(), Err(CacheError::CannotSwitch));
    assert_eq!(cache.flush(), Err(CacheError::CannotSwitch));
    assert_eq!(cache.status().current, 1);
    assert!(cache.finish_flush());
    assert_eq!(cache.begin_flush(), Ok(1));
    assert!(cache.finish_flush());
    assert_eq!(cache.status().current, 0);
    assert_eq!(cache.get_one(&1), Some(100));
}

#[test]
fn swap_publishes_at_once() {
    let mut cache = GreenBlueCache::default();
    assert_eq!(cache.put(1, 100), Ok(()));
    assert_eq!(cache.begin_flush(), Ok(0));
    assert_eq!(cache.get_one(&1), Some(100));
    assert_eq!(cache.read_leased(0, &1), None);
    assert_eq!(cache.read_leased(1, &1), Some(100));
    assert!(cache.finish_flush());
    assert_eq!(cache.get_one(&1), Some(100));
    assert_eq!(cache.read_leased(0, &1), Some(100));
}

#[test]
fn finish_without_flush_does_nothing() {
    let mut cache = GreenBlueCache::default();
    assert_eq!(cache.put(1, 100), Ok(()));
    assert!(!cache.is_drained());
    assert!(!cache.finish_flush());
    assert_eq!(cache.get_one(&1), None);
    assert_eq!(cache.status().pending, 1);
    assert_eq!(cache.status().current, 0);
}

#[test]
fn replay_waits_for_readers() {
    let mut cache = GreenBlueCache::default();
    assert_eq!(cache.put(1, 100), Ok(()));
    assert_eq!(cache.flush(), Ok(()));
    assert_eq!(cache.put(1, 200), Ok(()));
    let lease = cache.acquire_lease();
    assert_eq!(lease, 1);
    assert_eq!(cache.status().blue_readers, 1);
    assert_eq!(cache.begin_flush(), Ok(1));
    assert!(!cache.is_drained());
    assert!(!cache.finish_flush());
    assert_eq!(cache.read_leased(lease, &1), Some(100));
    assert_eq!(cache.get_one(&1), Some(200));
    assert_eq!(cache.status().pending, 1);
    cache.release_lease(lease);
    assert_eq!(cache.status().blue_readers, 0);
    assert!(cache.is_drained());
    assert!(cache.finish_flush());
    assert_eq!(cache.read_leased(lease, &1), Some(200));
    assert_eq!(cache.status().pending, 0);
}

#[test]
fn new_readers_go_to_the_new_buffer() {
    let mut cache = GreenBlueCache::default();
    let old_lease = cache.acquire_lease();
    assert_eq!(old_lease, 0);
    assert_eq!(cache.begin_flush(), Ok(0));
    let new_lease = cache.acquire_lease();
    assert_eq!(new_lease, 1);
    let status = cache.status();
    assert_eq!(status.green_readers, 1);
    assert_eq!(status.blue_readers, 1);
    assert!(!cache.finish_flush());
    cache.release_lease(old_lease);
    assert!(cache.finish_flush());
    cache.release_lease(new_lease);
    assert_eq!(cache.status().blue_readers, 0);
}

#[test]
fn release_without_lease_changes_nothing() {
    let mut cache = GreenBlueCache::default();
    cache.release_lease(0);
    cache.release_lease(1);
    cache.release_lease(2);
    cache.release_lease(usize::MAX);
    let status = cache.status();
    assert_eq!(status.green_readers, 0);
    assert_eq!(status.blue_readers, 0);
    let lease = cache.acquire_lease();
    cache.release_lease(7);
    assert_eq!(cache.status().green_readers, 1);
    cache.release_lease(lease);
    cache.release_lease(lease);
    assert_eq!(cache.status().green_readers, 0);
}

#[test]
fn writes_that_race_with_a_flush_are_kept() {
    let mut cache = GreenBlueCache::default();
    assert_eq!(cache.put(1, 100), Ok(()));
    assert_eq!(cache.begin_flush(), Ok(0));
    assert_eq!(cache.put(1, 101), Ok(()));
    assert_eq!(cache.put(2, 200), Ok(()));
    assert_eq!(cache.get(&[1, 2]), vec![Some(100), None]);
    assert!(cache.finish_flush());
    assert_eq!(cache.get(&[1, 2]), vec![Some(100), None]);
    assert_eq!(cache.read_leased(0, &1), Some(101));
    assert_eq!(cache.read_leased(0, &2), Some(200));
    assert_eq!(cache.status().pending, 2);
    assert_eq!(cache.flush(), Ok(()));
    assert_eq!(cache.get(&[1, 2]), vec![Some(101), Some(200)]);
    assert_eq!(cache.read_leased(0, &1), Some(101));
    assert_eq!(cache.read_leased(1, &1), Some(101));
    assert_eq!(cache.read_leased(1, &2), Some(200));
    assert_eq!(cache.status().pending, 0);
}

#[test]
fn racing_write_is_not_undone_by_the_replay() {
    let mut cache = GreenBlueCache::default();
    assert_eq!(cache.put(5, 1), Ok(()));
    assert_eq!(cache.begin_flush(), Ok(0));
    assert_eq!(cache.put(5, 2), Ok(()));
    assert!(cache.finish_flush());
    assert_eq!(cache.read_leased(0, &5), Some(2));
    assert_eq!(cache.flush(), Ok(()));
    assert_eq!(cache.get_one(&5), Some(2));
    assert_eq!(cache.flush(), Ok(()));
    assert_eq!(cache.get_one(&5), Some(2));
}

#[test]
fn status_counts() {
    let mut cache = GreenBlueCache::default();
    assert_eq!(
        cache.status(),
        CacheStatus {
            green_items: 0,
            green_readers: 0,
            blue_items: 0,
            blue_readers: 0,
            pending: 0,
            current: 0,
        }
    );
    assert_eq!(cache.put(1, 100), Ok(()));
    assert_eq!(cache.put(2, 200), Ok(()));
    assert_eq!(cache.put(1, 300), Ok(()));
    assert_eq!(
        cache.status(),
        CacheStatus {
            green_items: 0,
            green_readers: 0,
            blue_items: 2,
            blue_readers: 0,
            pending: 3,
            current: 0,
        }
    );
    assert_eq!(cache.flush(), Ok(()));
    let lease = cache.acquire_lease();
    assert_eq!(
        cache.status(),
        CacheStatus {
            green_items: 2,
            green_readers: 0,
            blue_items: 2,
            blue_readers: 1,
            pending: 0,
            current: 1,
        }
    );
    cache.release_lease(lease);
}

#[test]
fn reads_never_see_what_was_not_written() {
    let mut cache = GreenBlueCache::default();
    let written = [(1, 10), (2, 20), (1, 11), (3, 30)];
    for (key, value) in written {
        assert_eq!(cache.put(key, value), Ok(()));
        for probe in 0..5 {
            for index in 0..2 {
                if let Some(found) = cache.read_leased(index, &probe) {
                    assert!(written.contains(&(probe, found)));
                }
            }
        }
        assert_eq!(cache.flush(), Ok(()));
    }
    assert_eq!(cache.get_one(&0), None);
    assert_eq!(cache.get_one(&4), None);
}

#[test]
fn error_names() {
    assert_eq!(CacheError::NotFound.name(), "NotFound");
    assert_eq!(CacheError::CannotSwitch.name(), "CannotSwitch");
    assert_eq!(CacheError::CannotWrite.name(), "CannotWrite");
    assert_eq!(format!("{:?}", CacheError::CannotSwitch), "CannotSwitch");
    assert_ne!(CacheError::NotFound, CacheError::CannotWrite);
}
