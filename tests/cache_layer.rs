use symbolicator::cache::{
    cleanup_plan, entry_status, lookup_step, store_computed, CacheConfig, CacheFile, CacheItem,
    Computed, EntryStatus, LookupStep,
};
use symbolicator::singleflight::{InFlight, Join};

fn config() -> CacheConfig {
    CacheConfig {
        max_age: Some(1000),
        positive_ttl: Some(500),
        negative_ttl: Some(60),
        max_total_bytes: Some(100),
    }
}

#[test]
fn negative_entry_served_within_ttl() {
    let f = CacheFile { size: 0, mtime: 100 };
    assert_eq!(entry_status(&config(), f, 160), EntryStatus::NegativeHit);
}

#[test]
fn negative_entry_expires_after_ttl() {
    let f = CacheFile { size: 0, mtime: 100 };
    assert_eq!(entry_status(&config(), f, 161), EntryStatus::Expired);
}

#[test]
fn positive_entry_hit_and_expiry() {
    let f = CacheFile { size: 7, mtime: 100 };
    assert_eq!(entry_status(&config(), f, 600), EntryStatus::Hit);
    assert_eq!(entry_status(&config(), f, 601), EntryStatus::Expired);
}

#[test]
fn max_age_overrides_ttls() {
    let c = CacheConfig { max_age: Some(10), positive_ttl: None, negative_ttl: None, max_total_bytes: None };
    assert_eq!(entry_status(&c, CacheFile { size: 3, mtime: 0 }, 11), EntryStatus::Expired);
    assert_eq!(entry_status(&c, CacheFile { size: 3, mtime: 0 }, 10), EntryStatus::Hit);
}

#[test]
fn lookup_without_file_computes() {
    assert_eq!(lookup_step(&config(), None, 5), LookupStep::Compute);
    assert_eq!(lookup_step(&config(), Some(CacheFile { size: 0, mtime: 5 }), 5), LookupStep::ServeNegative);
    assert_eq!(lookup_step(&config(), Some(CacheFile { size: 9, mtime: 5 }), 5), LookupStep::ServeObject);
}

#[test]
fn computed_object_is_written_as_it_came() {
    let stored = store_computed(Computed::Found(vec![1, 2, 3]));
    assert_eq!(stored.write, Some(vec![1, 2, 3]));
    assert!(matches!(stored.item, Some(CacheItem::Object(ref b)) if *b == vec![1, 2, 3]));
}

#[test]
fn zero_byte_download_is_an_object() {
    let stored = store_computed(Computed::Found(Vec::new()));
    assert_eq!(stored.write, None);
    assert!(matches!(stored.item, Some(CacheItem::Object(ref b)) if b.is_empty()));
}

#[test]
fn absence_is_written_as_empty_file() {
    let stored = store_computed(Computed::NotFound);
    assert_eq!(stored.write, Some(Vec::new()));
    assert!(matches!(stored.item, Some(CacheItem::Negative)));
}

#[test]
fn failure_is_not_persisted() {
    let stored = store_computed(Computed::Failed);
    assert_eq!(stored.write, None);
    assert!(stored.item.is_none());
}

#[test]
fn cleanup_removes_stale_then_oldest() {
    // sizes 60, 50, 40 at mtimes 10, 20, 30; one stale file at mtime 0.
    let files = vec![
        CacheFile { size: 50, mtime: 20 },
        CacheFile { size: 5, mtime: 0 },
        CacheFile { size: 40, mtime: 30 },
        CacheFile { size: 60, mtime: 10 },
    ];
    let c = CacheConfig { max_age: Some(1000), positive_ttl: None, negative_ttl: None, max_total_bytes: Some(100) };
    let plan = cleanup_plan(&c, &files, 1005);
    assert_eq!(plan, vec![false, true, false, true]);
}

#[test]
fn cleanup_twice_is_a_no_op() {
    let files = vec![
        CacheFile { size: 50, mtime: 20 },
        CacheFile { size: 5, mtime: 0 },
        CacheFile { size: 40, mtime: 30 },
        CacheFile { size: 60, mtime: 10 },
    ];
    let c = CacheConfig { max_age: Some(1000), positive_ttl: None, negative_ttl: None, max_total_bytes: Some(100) };
    let plan = cleanup_plan(&c, &files, 1005);
    let rest: Vec<CacheFile> = files.iter().zip(plan.iter()).filter(|(_, d)| !**d).map(|(f, _)| *f).collect();
    let again = cleanup_plan(&c, &rest, 1005);
    assert!(again.iter().all(|d| !*d));
}

#[test]
fn cleanup_bound_ten_to_one() {
    // Ten entries of 1 GiB each with a limit of 1 GiB: only the newest stays.
    let gib: u64 = 1 << 30;
    let files: Vec<CacheFile> = (0..10).map(|i| CacheFile { size: gib, mtime: 100 + i }).collect();
    let c = CacheConfig { max_age: None, positive_ttl: None, negative_ttl: None, max_total_bytes: Some(gib) };
    let plan = cleanup_plan(&c, &files, 200);
    let kept: u64 = files.iter().zip(plan.iter()).filter(|(_, d)| !**d).map(|(f, _)| f.size).sum();
    assert!(kept <= gib);
    assert_eq!(plan, vec![true, true, true, true, true, true, true, true, true, false]);
}

#[test]
fn cleanup_without_limits_keeps_everything() {
    let files = vec![CacheFile { size: 1, mtime: 1 }, CacheFile { size: 0, mtime: 2 }];
    let c = CacheConfig { max_age: None, positive_ttl: None, negative_ttl: None, max_total_bytes: None };
    assert_eq!(cleanup_plan(&c, &files, 1_000_000), vec![false, false]);
    assert_eq!(cleanup_plan(&c, &Vec::new(), 0), Vec::<bool>::new());
}

#[test]
fn single_flight_sixteen_callers_one_computation() {
    let mut t = InFlight::new();
    let mut computes = 0;
    for _ in 0..16 {
        if t.begin("abc123") == Join::Compute {
            computes += 1;
        }
    }
    assert_eq!(computes, 1);
    assert!(t.is_running("abc123"));
    assert!(!t.is_running("other"));
    t.finish("abc123");
    assert!(!t.is_running("abc123"));
    assert_eq!(t.begin("abc123"), Join::Compute);
}

#[test]
fn single_flight_keys_are_independent() {
    let mut t = InFlight::new();
    assert_eq!(t.begin("a"), Join::Compute);
    assert_eq!(t.begin("b"), Join::Compute);
    assert_eq!(t.begin("a"), Join::Wait);
    t.finish("a");
    assert_eq!(t.begin("b"), Join::Wait);
}
