//! Tests of version parsing, ordering and the fetcher strategies.

use smart_contract_verifier::engine::Error;
use smart_contract_verifier::fetcher::{list_available, resolve, version_of_key, ManifestEntry};
use smart_contract_verifier::version::{latest_version, Version};

#[test]
fn parses_plain_and_prefixed_versions() {
    let v = Version::parse("0.8.17").unwrap();
    assert_eq!((v.major, v.minor, v.patch), (0, 8, 17));
    assert_eq!(v.suffix, None);

    let v = Version::parse("v0.8.17").unwrap();
    assert_eq!((v.major, v.minor, v.patch), (0, 8, 17));

    let v = Version::parse("v10.2.0+commit.e28d00a7").unwrap();
    assert_eq!((v.major, v.minor, v.patch), (10, 2, 0));
    assert_eq!(v.suffix, Some("+commit.e28d00a7".to_string()));
}

#[test]
fn parses_pre_release_versions() {
    let v = Version::parse("0.8.18-nightly.2023.1.4+commit.abcdef00").unwrap();
    assert_eq!((v.major, v.minor, v.patch), (0, 8, 18));
    assert_eq!(v.suffix, Some("-nightly.2023.1.4+commit.abcdef00".to_string()));

    let v = Version::parse("1.2.3-rc1").unwrap();
    assert_eq!(v.suffix, Some("-rc1".to_string()));
}

#[test]
fn rejects_malformed_versions() {
    for s in [
        "", "v", "0", "0.8", "0.8.", ".8.1", "a.b.c", "1.2.3.4", "1..3", "1.2.3+", "1.2.3-",
        "1.2.x", "1.2.3 ",
    ] {
        assert!(Version::parse(s).is_none(), "{s:?} should not parse");
    }
}

#[test]
fn numeric_components_are_bounded_to_u64() {
    // Nineteen digits always fit; a twentieth is rejected.
    let v = Version::parse("9999999999999999999.0.1").unwrap();
    assert_eq!(v.major, 9_999_999_999_999_999_999);
    assert!(Version::parse("99999999999999999999.0.1").is_none());
}

#[test]
fn ordering_ignores_the_suffix() {
    let a = Version::parse("0.8.17+commit.aaaa").unwrap();
    let b = Version::parse("0.8.16+commit.zzzz").unwrap();
    let c = Version::parse("0.9.0").unwrap();
    assert!(a.newer_than(&b));
    assert!(!b.newer_than(&a));
    assert!(c.newer_than(&a));
    let a2 = Version::parse("0.8.17+commit.bbbb").unwrap();
    assert!(!a.newer_than(&a2));
    assert!(!a2.newer_than(&a));
}

#[test]
fn equality_includes_the_suffix() {
    let a = Version::parse("0.8.17+commit.aaaa").unwrap();
    let b = Version::parse("0.8.17+commit.aaaa").unwrap();
    let c = Version::parse("0.8.17+commit.bbbb").unwrap();
    let d = Version::parse("0.8.17").unwrap();
    assert!(a == b);
    assert!(a != c);
    assert!(a != d);
    // A pre-release differs from a build-metadata suffix of the same text.
    let e = Version::parse("1.2.3-x").unwrap();
    let f = Version::parse("1.2.3+x").unwrap();
    assert!(e != f);
}

#[test]
fn latest_version_picks_the_numerically_newest() {
    let versions = vec![
        Version::parse("0.8.2").unwrap(),
        Version::parse("0.9.0+commit.aaaa").unwrap(),
        Version::parse("0.9.0+commit.bbbb").unwrap(),
        Version::parse("0.8.17").unwrap(),
    ];
    let best = latest_version(&versions).unwrap();
    assert_eq!((best.major, best.minor, best.patch), (0, 9, 0));
    // Among equal numeric components the first listed is kept.
    assert_eq!(best.suffix, Some("+commit.aaaa".to_string()));
    assert!(latest_version(&vec![]).is_none());
}

fn entry(version: &str, url: &str) -> ManifestEntry {
    ManifestEntry {
        version: Version::parse(version).unwrap(),
        url: url.to_string(),
        checksum: None,
    }
}

#[test]
fn resolve_finds_the_first_entry_for_a_version() {
    let entries = vec![
        entry("v0.3.6+commit.abcd", "https://example.com/0.3.6"),
        entry("v0.3.7+commit.abcd", "https://example.com/0.3.7-first"),
        entry("v0.3.7+commit.abcd", "https://example.com/0.3.7-second"),
    ];
    let wanted = Version::parse("v0.3.7+commit.abcd").unwrap();
    assert_eq!(resolve(&entries, &wanted), Ok("https://example.com/0.3.7-first".to_string()));
}

#[test]
fn resolve_unknown_version_is_version_not_found() {
    let entries = vec![entry("v0.3.6+commit.abcd", "https://example.com/0.3.6")];
    let wanted = Version::parse("v0.3.9").unwrap();
    assert_eq!(resolve(&entries, &wanted), Err(Error::VersionNotFound));
}

#[test]
fn list_available_keeps_manifest_order() {
    let entries = vec![
        entry("0.1.0", "https://example.com/a"),
        entry("0.2.0", "https://example.com/b"),
    ];
    let versions = list_available(&entries);
    assert_eq!(versions.len(), 2);
    assert_eq!((versions[0].major, versions[0].minor), (0, 1));
    assert_eq!((versions[1].major, versions[1].minor), (0, 2));
}

#[test]
fn bucket_keys_name_versions_in_their_first_segment() {
    let v = version_of_key("v0.8.17+commit.8df45f5f/solc").unwrap();
    assert_eq!((v.major, v.minor, v.patch), (0, 8, 17));
    assert_eq!(v.suffix, Some("+commit.8df45f5f".to_string()));

    let v = version_of_key("0.1.0").unwrap();
    assert_eq!((v.major, v.minor, v.patch), (0, 1, 0));

    assert!(version_of_key("list.json").is_none());
    assert!(version_of_key("binaries/v0.8.17/solc").is_none());
    assert!(version_of_key("/v0.8.17/solc").is_none());
}
