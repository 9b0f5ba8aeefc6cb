//! Tests of the compiler cache: single-flight downloads and refresh
//! bookkeeping.

use smart_contract_verifier::cache::{CompilerCache, LookupOutcome};
use smart_contract_verifier::version::Version;

fn v(s: &str) -> Version {
    Version::parse(s).unwrap()
}

#[test]
fn unknown_version_is_reported_unknown() {
    let cache = CompilerCache::new();
    assert!(matches!(cache.lookup(&v("0.8.17")), LookupOutcome::Unknown));
}

#[test]
fn single_flight_second_lookup_awaits_the_first_download() {
    let mut cache = CompilerCache::new();
    cache.refresh_tick(&vec![v("0.8.17+commit.aa")]);
    let wanted = v("0.8.17+commit.aa");

    // First requester is told to start the one download.
    assert!(matches!(cache.lookup(&wanted), LookupOutcome::StartFetch));
    cache.begin_fetch(&wanted);

    // A concurrent requester of the same version awaits it, and never
    // starts a second download.
    assert!(matches!(cache.lookup(&wanted), LookupOutcome::AwaitInFlight));
    assert!(matches!(cache.lookup(&wanted), LookupOutcome::AwaitInFlight));

    // Once complete, every lookup gets the same executable path.
    cache.complete_fetch(&wanted, "/tmp/compilers/0.8.17/solc".to_string());
    match cache.lookup(&wanted) {
        LookupOutcome::Ready(path) => assert_eq!(path, "/tmp/compilers/0.8.17/solc"),
        _ => panic!("expected a cached path"),
    }
}

#[test]
fn failed_download_leaves_the_version_fetchable_again() {
    let mut cache = CompilerCache::new();
    cache.refresh_tick(&vec![v("0.8.1")]);
    let wanted = v("0.8.1");
    assert!(matches!(cache.lookup(&wanted), LookupOutcome::StartFetch));
    cache.begin_fetch(&wanted);
    assert!(matches!(cache.lookup(&wanted), LookupOutcome::AwaitInFlight));
    // A corrupt artifact is discarded, not cached; the next request retries.
    cache.fetch_failed(&wanted);
    assert!(matches!(cache.lookup(&wanted), LookupOutcome::StartFetch));
}

#[test]
fn refresh_twice_with_unchanged_listing_changes_nothing() {
    let mut cache = CompilerCache::new();
    let listing = vec![v("0.8.1"), v("0.8.2"), v("0.8.1"), v("0.7.0+commit.9e61f92b")];
    cache.refresh_tick(&listing);
    let after_once = cache.known_versions();
    // Duplicates in one listing are already collapsed.
    assert_eq!(after_once.len(), 3);
    cache.refresh_tick(&listing);
    let after_twice = cache.known_versions();
    assert_eq!(after_once, after_twice);
}

#[test]
fn refresh_never_removes_known_or_cached_versions() {
    let mut cache = CompilerCache::new();
    cache.refresh_tick(&vec![v("0.8.1"), v("0.8.2")]);
    cache.begin_fetch(&v("0.8.1"));
    cache.complete_fetch(&v("0.8.1"), "/tmp/compilers/0.8.1/solc".to_string());

    // A later listing that no longer mentions the old versions.
    cache.refresh_tick(&vec![v("0.9.0")]);
    let known = cache.known_versions();
    assert_eq!(known.len(), 3);
    assert!(known.contains(&v("0.8.1")));
    assert!(known.contains(&v("0.8.2")));
    assert!(known.contains(&v("0.9.0")));
    // The cached handle is still served.
    match cache.lookup(&v("0.8.1")) {
        LookupOutcome::Ready(path) => assert_eq!(path, "/tmp/compilers/0.8.1/solc"),
        _ => panic!("expected the cached path to survive the refresh"),
    }
}

#[test]
fn refresh_appends_new_versions_in_listing_order() {
    let mut cache = CompilerCache::new();
    cache.refresh_tick(&vec![v("0.5.0")]);
    cache.refresh_tick(&vec![v("0.4.0"), v("0.5.0"), v("0.6.0")]);
    let known = cache.known_versions();
    assert_eq!(known, vec![v("0.5.0"), v("0.4.0"), v("0.6.0")]);
}
