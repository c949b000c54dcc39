use symbolicator::endpoints::SentryFutureExt;
use symbolicator::keys::{derived_cache_key, object_cache_key};
use symbolicator::objects::{choose_object, Candidate, ObjectFeatures, ObjectPurpose};
use symbolicator::sentry::SearchCache;
use symbolicator::symbolication::{place_frame, FramePlacement, ModuleRange};

fn features(debug: bool, unwind: bool) -> ObjectFeatures {
    ObjectFeatures { has_debug_info: debug, has_unwind_info: unwind, has_sources: false }
}

#[test]
fn first_usable_candidate_wins() {
    let c = vec![
        Candidate::Absent,
        Candidate::Failed,
        Candidate::Found(features(false, true)),
        Candidate::Found(features(true, false)),
        Candidate::Found(features(true, true)),
    ];
    assert_eq!(choose_object(&c, ObjectPurpose::Debug), Some(3));
    assert_eq!(choose_object(&c, ObjectPurpose::Unwind), Some(2));
    assert_eq!(choose_object(&c, ObjectPurpose::Source), None);
    assert_eq!(choose_object(&Vec::new(), ObjectPurpose::Debug), None);
}

#[test]
fn frames_placed_by_address_range() {
    let modules = vec![
        ModuleRange { image_addr: 0x400000, image_size: 0x10000, available: true },
        ModuleRange { image_addr: 0x500000, image_size: 0x1000, available: false },
    ];
    assert_eq!(place_frame(&modules, 0x402040), FramePlacement::InModule { module: 0, offset: 0x2040 });
    assert_eq!(place_frame(&modules, 0x500010), FramePlacement::UnknownImage);
    assert_eq!(place_frame(&modules, 0x410000), FramePlacement::Missing);
    assert_eq!(place_frame(&modules, 0x10), FramePlacement::Missing);
}

#[test]
fn object_keys_frame_their_parts() {
    assert_eq!(object_cache_key("global", "local", "a/b"), "6:global5:locala/b");
    assert_ne!(object_cache_key("ab", "c", "x"), object_cache_key("a", "bc", "x"));
    assert_ne!(object_cache_key("global", "s", "p"), object_cache_key("tenant", "s", "p"));
}

#[test]
fn derived_keys_carry_parser_version() {
    let k = object_cache_key("global", "s", "p");
    assert_eq!(derived_cache_key(&k, 3), format!("3:{}", k));
    assert_ne!(derived_cache_key(&k, 1), derived_cache_key(&k, 2));
}

#[test]
fn search_listing_cached_for_an_hour() {
    let mut c = SearchCache::new();
    assert_eq!(c.cached("https://sentry/index?debug_id=x", "tok", 0), None);
    c.store("https://sentry/index?debug_id=x", "tok", 100, vec!["7".to_string(), "9".to_string()]);
    assert_eq!(c.cached("https://sentry/index?debug_id=x", "tok", 3699), Some(vec!["7".to_string(), "9".to_string()]));
    assert_eq!(c.cached("https://sentry/index?debug_id=x", "tok", 3700), None);
    assert_eq!(c.cached("https://sentry/index?debug_id=x", "other", 200), None);
}

#[test]
fn search_listing_replaced_on_store() {
    let mut c = SearchCache::new();
    c.store("u", "t", 0, vec!["1".to_string()]);
    c.store("u", "t", 10, vec!["2".to_string()]);
    assert_eq!(c.cached("u", "t", 20), Some(vec!["2".to_string()]));
}

#[test]
fn bind_hub_keeps_both() {
    let f = 41u32.bind_hub("hub");
    assert_eq!(f.inner, 41);
    assert_eq!(f.hub, "hub");
}
