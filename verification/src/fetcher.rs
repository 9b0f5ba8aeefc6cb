//! Fetcher strategies: resolving a compiler version to a downloadable
//! artifact location.
//!
//! The list strategy works from a downloaded manifest associating each
//! version with a download URL and an optional checksum. The bucket
//! strategy works from listed object keys, whose first path segment names
//! the compiler version the object belongs to. Downloading the manifest,
//! the keys and the artifacts is network I/O and happens outside this
//! crate; resolution over what was downloaded is verified here.

use vstd::prelude::*;

use crate::cache::VersionModel;
use crate::engine::Error;
use crate::version::{chars_vec, find_from, spec_find_char, spec_parse_version, Version};

verus! {

/// One manifest entry: a version, the URL its binary downloads from, and
/// an optional checksum for the integrity check after download.
pub struct ManifestEntry {
    pub version: Version,
    pub url: String,
    pub checksum: Option<String>,
}

/// The versions a manifest lists, in manifest order.
pub open spec fn spec_manifest_versions(entries: Seq<ManifestEntry>) -> Seq<VersionModel> {
    entries.map_values(|e: ManifestEntry| e.version@)
}

/// Index of the first manifest entry for version `v`.
pub open spec fn spec_first_index(vs: Seq<VersionModel>, v: VersionModel) -> Option<int>
    decreases vs.len(),
{
    if vs.len() == 0 {
        None
    } else if vs[0] == v {
        Some(0)
    } else {
        match spec_first_index(vs.skip(1), v) {
            Some(i) => Some(i + 1),
            None => None,
        }
    }
}

pub proof fn lemma_first_index_correct(vs: Seq<VersionModel>, v: VersionModel)
    ensures
        match spec_first_index(vs, v) {
            Some(i) => 0 <= i < vs.len() && vs[i] == v && forall|j: int| 0 <= j < i ==> vs[j] != v,
            None => forall|j: int| 0 <= j < vs.len() ==> vs[j] != v,
        },
    decreases vs.len(),
{
    if vs.len() > 0 && vs[0] != v {
        lemma_first_index_correct(vs.skip(1), v);
        assert(forall|j: int| 1 <= j < vs.len() ==> vs[j] == vs.skip(1)[j - 1]);
    }
}

/// Resolves a version against a downloaded manifest: the URL of the first
/// entry carrying the version, or `VersionNotFound` when no entry does.
/// Unreachability of the manifest itself is a fetch failure upstream,
/// never a `VersionNotFound`.
pub fn resolve(entries: &Vec<ManifestEntry>, version: &Version) -> (r: Result<String, Error>)
    ensures
        match spec_first_index(spec_manifest_versions(entries@), version@) {
            Some(i) => r matches Ok(u) && u@ == entries@[i].url@,
            None => r == Err::<String, Error>(Error::VersionNotFound),
        },
{
    let ghost vs = spec_manifest_versions(entries@);
    let n = entries.len();
    let mut i: usize = 0;
    while i < n
        invariant
            i <= n,
            n == entries@.len(),
            vs == spec_manifest_versions(entries@),
            forall|j: int| 0 <= j < i ==> vs[j] != version@,
        decreases n - i,
    {
        let entry = &entries[i];
        if entry.version.eq(version) {
            proof {
                lemma_first_index_correct(vs, version@);
                assert(vs[i as int] == version@);
            }
            return Ok(entry.url.clone());
        }
        i = i + 1;
    }
    proof {
        lemma_first_index_correct(vs, version@);
        if spec_first_index(vs, version@) is Some {
            let k = choose|k: int| 0 <= k < vs.len() && vs[k] == version@;
        }
    }
    Err(Error::VersionNotFound)
}

/// The set of versions a downloaded manifest offers, in manifest order.
pub fn list_available(entries: &Vec<ManifestEntry>) -> (r: Vec<Version>)
    ensures
        r@.len() == entries@.len(),
        forall|i: int| 0 <= i < r@.len() ==> r@[i]@ == entries@[i].version@,
{
    let n = entries.len();
    let mut r: Vec<Version> = Vec::new();
    let mut i: usize = 0;
    while i < n
        invariant
            i <= n,
            n == entries@.len(),
            r@.len() == i,
            forall|j: int| 0 <= j < i ==> r@[j]@ == entries@[j].version@,
        decreases n - i,
    {
        r.push(entries[i].version.clone());
        i = i + 1;
    }
    r
}

/// The version a bucket object key belongs to: its first path segment,
/// read as a version string.
pub open spec fn spec_key_version(s: Seq<char>) -> Option<(int, int, int, Option<Seq<char>>)> {
    match spec_find_char(s, '/') {
        Some(i) => spec_parse_version(s.take(i)),
        None => spec_parse_version(s),
    }
}

/// Maps a listed bucket object key to the version it belongs to, or
/// `None` when its first path segment is not a version.
pub fn version_of_key(key: &str) -> (r: Option<Version>)
    ensures
        match spec_key_version(key@) {
            Some(m) => r matches Some(v) && v@ == m,
            None => r is None,
        },
{
    let chars = chars_vec(key);
    let n = chars.len();
    proof {
        assert(chars@.subrange(0, n as int) =~= key@);
    }
    match find_from(&chars, 0, n, '/') {
        Some(k) => {
            let segment = key.substring_char(0, k);
            proof {
                assert(segment@ =~= key@.take(k as int));
            }
            Version::parse(segment)
        },
        None => Version::parse(key),
    }
}

} // verus!
