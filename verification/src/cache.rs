//! The compiler cache and the refresh bookkeeping of the version manager.
//!
//! The cache answers "give me an executable path for version V". A version
//! is either absent or fully resolvable: a download in progress is tracked
//! in a separate in-flight set, and a version becomes cached only when its
//! download completes, so a lookup never observes a partial binary.
//! Concurrent misses for one version collapse into a single download: the
//! first requester is told to start the fetch, every later one to await
//! it. The background refresher merges the remote listing into the
//! known-version set without ever removing a version.

use vstd::prelude::*;

use crate::version::Version;

verus! {

/// Model of a version: its numeric components and build metadata.
pub type VersionModel = (int, int, int, Option<Seq<char>>);

/// Model of the cache: the known-version set, the cached versions with
/// their local executable paths, and the versions with a download in
/// flight.
pub struct CacheModel {
    pub known: Seq<VersionModel>,
    pub cached: Seq<(VersionModel, Seq<char>)>,
    pub in_flight: Seq<VersionModel>,
}

pub open spec fn spec_version_models(s: Seq<Version>) -> Seq<VersionModel> {
    s.map_values(|v: Version| v@)
}

pub open spec fn spec_known_contains(m: CacheModel, v: VersionModel) -> bool {
    m.known.contains(v)
}

pub open spec fn spec_cached_contains(m: CacheModel, v: VersionModel) -> bool {
    exists|i: int| 0 <= i < m.cached.len() && m.cached[i].0 == v
}

pub open spec fn spec_in_flight_contains(m: CacheModel, v: VersionModel) -> bool {
    m.in_flight.contains(v)
}

/// Well-formedness: each set lists a version once; cached and in-flight
/// versions are known; a version is never both cached and in flight.
pub open spec fn spec_cache_wf(m: CacheModel) -> bool {
    &&& forall|i: int, j: int| 0 <= i < j < m.known.len() ==> m.known[i] != m.known[j]
    &&& forall|i: int, j: int| 0 <= i < j < m.cached.len() ==> m.cached[i].0 != m.cached[j].0
    &&& forall|i: int, j: int|
        0 <= i < j < m.in_flight.len() ==> m.in_flight[i] != m.in_flight[j]
    &&& forall|i: int| 0 <= i < m.cached.len() ==> spec_known_contains(m, #[trigger] m.cached[i].0)
    &&& forall|i: int|
        0 <= i < m.in_flight.len() ==> spec_known_contains(m, #[trigger] m.in_flight[i])
    &&& forall|i: int|
        0 <= i < m.in_flight.len() ==> !spec_cached_contains(m, #[trigger] m.in_flight[i])
}

/// What a lookup tells the requester to do.
pub enum LookupOutcome {
    /// The version is cached; the payload is its local executable path.
    Ready(String),
    /// Another requester is already downloading this version; await it.
    AwaitInFlight,
    /// The version is known but not cached and nobody is downloading it;
    /// this requester should start the fetch.
    StartFetch,
    /// The version is not in the known-version set.
    Unknown,
}

/// One insertion step of a refresh: a version already known is left
/// alone, a new one is appended.
pub open spec fn spec_merge_one(known: Seq<VersionModel>, v: VersionModel) -> Seq<VersionModel> {
    if known.contains(v) {
        known
    } else {
        known.push(v)
    }
}

/// The known-version set after a refresh tick that saw `listing`.
pub open spec fn spec_merge(known: Seq<VersionModel>, listing: Seq<VersionModel>) -> Seq<
    VersionModel,
>
    decreases listing.len(),
{
    if listing.len() == 0 {
        known
    } else {
        spec_merge(spec_merge_one(known, listing[0]), listing.skip(1))
    }
}

/// A version already known stays known through any refresh: a refresh
/// never removes a version.
pub proof fn lemma_refresh_keeps_known(
    known: Seq<VersionModel>,
    listing: Seq<VersionModel>,
    v: VersionModel,
)
    requires
        known.contains(v),
    ensures
        spec_merge(known, listing).contains(v),
    decreases listing.len(),
{
    if listing.len() > 0 {
        let k2 = spec_merge_one(known, listing[0]);
        assert(k2.contains(v)) by {
            let i = choose|i: int| 0 <= i < known.len() && known[i] == v;
            assert(k2[i] == v);
        }
        lemma_refresh_keeps_known(k2, listing.skip(1), v);
    }
}

/// Every listed version is known after the refresh.
pub proof fn lemma_refresh_adds_listing(
    known: Seq<VersionModel>,
    listing: Seq<VersionModel>,
    i: int,
)
    requires
        0 <= i < listing.len(),
    ensures
        spec_merge(known, listing).contains(listing[i]),
    decreases listing.len(),
{
    let k2 = spec_merge_one(known, listing[0]);
    if i == 0 {
        assert(k2.contains(listing[0])) by {
            if !known.contains(listing[0]) {
                assert(k2[known.len() as int] == listing[0]);
            }
        }
        lemma_refresh_keeps_known(k2, listing.skip(1), listing[0]);
    } else {
        lemma_refresh_adds_listing(k2, listing.skip(1), i - 1);
        assert(listing.skip(1)[i - 1] == listing[i]);
    }
}

/// A refresh whose whole listing is already known changes nothing.
pub proof fn lemma_refresh_noop(known: Seq<VersionModel>, listing: Seq<VersionModel>)
    requires
        forall|i: int| 0 <= i < listing.len() ==> known.contains(#[trigger] listing[i]),
    ensures
        spec_merge(known, listing) == known,
    decreases listing.len(),
{
    if listing.len() > 0 {
        assert(known.contains(listing[0]));
        assert(spec_merge_one(known, listing[0]) == known);
        assert(forall|i: int|
            0 <= i < listing.skip(1).len() ==> known.contains(#[trigger] listing.skip(1)[i]));
        lemma_refresh_noop(known, listing.skip(1));
    }
}

/// Refresher idempotence: with an unchanged remote listing, running the
/// refresh twice in a row leaves the known-version set exactly as after
/// the first run — no duplicate entries, no removals.
pub proof fn lemma_refresh_idempotent(known: Seq<VersionModel>, listing: Seq<VersionModel>)
    ensures
        spec_merge(spec_merge(known, listing), listing) == spec_merge(known, listing),
{
    let once = spec_merge(known, listing);
    assert forall|i: int| 0 <= i < listing.len() implies once.contains(#[trigger] listing[i]) by {
        lemma_refresh_adds_listing(known, listing, i);
    }
    lemma_refresh_noop(once, listing);
}

/// Each version occurs at most once.
pub open spec fn spec_unique_versions(s: Seq<VersionModel>) -> bool {
    forall|i: int, j: int| 0 <= i < j < s.len() ==> s[i] != s[j]
}

/// A refresh preserves uniqueness of the known-version set.
pub proof fn lemma_refresh_unique(known: Seq<VersionModel>, listing: Seq<VersionModel>)
    requires
        spec_unique_versions(known),
    ensures
        spec_unique_versions(spec_merge(known, listing)),
    decreases listing.len(),
{
    reveal_with_fuel(spec_merge, 2);
    if listing.len() > 0 {
        let k2 = spec_merge_one(known, listing[0]);
        assert(spec_unique_versions(k2)) by {
            if !known.contains(listing[0]) {
                assert forall|i: int, j: int| 0 <= i < j < k2.len() implies k2[i] != k2[j] by {
                    assert(k2[known.len() as int] == listing[0]);
                    if j < known.len() {
                        assert(k2[i] == known[i] && k2[j] == known[j]);
                    } else {
                        assert(k2[i] == known[i]);
                    }
                }
            }
        }
        lemma_refresh_unique(k2, listing.skip(1));
    }
}

/// The model after a requester is told to start the fetch of `v`.
pub open spec fn spec_begin_fetch(m: CacheModel, v: VersionModel) -> CacheModel {
    CacheModel { known: m.known, cached: m.cached, in_flight: m.in_flight.push(v) }
}

/// A lookup would tell the requester to start a download.
pub open spec fn spec_would_start_fetch(m: CacheModel, v: VersionModel) -> bool {
    spec_known_contains(m, v) && !spec_cached_contains(m, v) && !spec_in_flight_contains(m, v)
}

/// Single-flight: once one requester has been told to start the fetch of
/// an uncached version and the fetch is recorded in flight, any further
/// lookup of that version awaits the in-flight download instead of
/// starting a second one.
pub proof fn lemma_single_flight(m: CacheModel, v: VersionModel)
    requires
        spec_would_start_fetch(m, v),
    ensures
        !spec_would_start_fetch(spec_begin_fetch(m, v), v),
        spec_in_flight_contains(spec_begin_fetch(m, v), v),
        !spec_cached_contains(spec_begin_fetch(m, v), v),
{
    let m2 = spec_begin_fetch(m, v);
    assert(m2.in_flight[m.in_flight.len() as int] == v);
}

/// The compiler cache: known versions, cached versions with their local
/// executable paths, and downloads in flight.
pub struct CompilerCache {
    known: Vec<Version>,
    cached: Vec<(Version, String)>,
    in_flight: Vec<Version>,
}

impl View for CompilerCache {
    type V = CacheModel;

    closed spec fn view(&self) -> CacheModel {
        CacheModel {
            known: spec_version_models(self.known@),
            cached: self.cached@.map_values(|p: (Version, String)| (p.0@, p.1@)),
            in_flight: spec_version_models(self.in_flight@),
        }
    }
}

/// Whether `list` holds a version equal to `v`.
fn contains_version(list: &Vec<Version>, v: &Version) -> (r: bool)
    ensures
        r == spec_version_models(list@).contains(v@),
{
    let ghost models = spec_version_models(list@);
    let n = list.len();
    let mut i: usize = 0;
    while i < n
        invariant
            i <= n,
            n == list@.len(),
            models == spec_version_models(list@),
            forall|j: int| 0 <= j < i ==> models[j] != v@,
        decreases n - i,
    {
        if list[i].eq(v) {
            proof {
                assert(models[i as int] == v@);
            }
            return true;
        }
        i = i + 1;
    }
    proof {
        if models.contains(v@) {
            let k = choose|k: int| 0 <= k < models.len() && models[k] == v@;
            assert(models[k] != v@);
        }
    }
    false
}

impl CompilerCache {
    /// An empty cache: no known, cached or in-flight versions.
    pub fn new() -> (r: CompilerCache)
        ensures
            r@.known =~= Seq::<VersionModel>::empty(),
            r@.cached =~= Seq::<(VersionModel, Seq<char>)>::empty(),
            r@.in_flight =~= Seq::<VersionModel>::empty(),
            spec_cache_wf(r@),
    {
        let r = CompilerCache { known: Vec::new(), cached: Vec::new(), in_flight: Vec::new() };
        proof {
            assert(r@.known =~= Seq::<VersionModel>::empty());
            assert(r@.cached =~= Seq::<(VersionModel, Seq<char>)>::empty());
            assert(r@.in_flight =~= Seq::<VersionModel>::empty());
        }
        r
    }

    /// What a requester of version `v` should do, given the current state.
    pub fn lookup(&self, v: &Version) -> (r: LookupOutcome)
        requires
            spec_cache_wf(self@),
        ensures
            (r is Ready <==> spec_cached_contains(self@, v@)),
            r matches LookupOutcome::Ready(p) ==> exists|i: int|
                0 <= i < self@.cached.len() && self@.cached[i] == (v@, p@),
            (r is AwaitInFlight <==> !spec_cached_contains(self@, v@) && spec_in_flight_contains(
                self@,
                v@,
            )),
            (r is StartFetch <==> spec_would_start_fetch(self@, v@)),
            (r is Unknown <==> !spec_known_contains(self@, v@)),
    {
        let n = self.cached.len();
        let mut i: usize = 0;
        while i < n
            invariant
                i <= n,
                n == self.cached@.len(),
                spec_cache_wf(self@),
                forall|j: int| 0 <= j < i ==> self@.cached[j].0 != v@,
            decreases n - i,
        {
            let entry = &self.cached[i];
            if entry.0.eq(v) {
                proof {
                    assert(self@.cached[i as int] == (v@, entry.1@));
                    assert(self@.cached[i as int].0 == v@);
                    assert(spec_known_contains(self@, v@));
                }
                return LookupOutcome::Ready(entry.1.clone());
            }
            i = i + 1;
        }
        proof {
            if spec_cached_contains(self@, v@) {
                let k = choose|k: int| 0 <= k < self@.cached.len() && self@.cached[k].0 == v@;
                assert(self@.cached[k].0 != v@);
            }
        }
        if contains_version(&self.in_flight, v) {
            return LookupOutcome::AwaitInFlight;
        }
        if contains_version(&self.known, v) {
            return LookupOutcome::StartFetch;
        }
        LookupOutcome::Unknown
    }

    /// Records that the requester told to start the fetch of `v` has
    /// begun it; later lookups of `v` will await this download.
    pub fn begin_fetch(&mut self, v: &Version)
        requires
            spec_cache_wf(old(self)@),
            spec_would_start_fetch(old(self)@, v@),
        ensures
            spec_cache_wf(final(self)@),
            final(self)@ == spec_begin_fetch(old(self)@, v@),
    {
        self.in_flight.push(v.clone());
        proof {
            assert(final(self)@.in_flight =~= old(self)@.in_flight.push(v@));
            assert(final(self)@.known =~= old(self)@.known);
            assert(final(self)@.cached =~= old(self)@.cached);
            let m = final(self)@;
            let o = old(self)@;
            assert(forall|i: int|
                0 <= i < m.in_flight.len() - 1 ==> m.in_flight[i] == o.in_flight[i]);
            assert(m.in_flight[m.in_flight.len() - 1] == v@);
            assert(forall|i: int, j: int|
                0 <= i < j < m.in_flight.len() ==> m.in_flight[i] != m.in_flight[j]) by {
                if spec_in_flight_contains(o, v@) {
                    let k = choose|k: int|
                        0 <= k < o.in_flight.len() && o.in_flight[k] == v@;
                }
            }
        }
    }

    /// Registers the completed, integrity-checked download of `v` at
    /// `path`; the version leaves the in-flight set and becomes cached.
    pub fn complete_fetch(&mut self, v: &Version, path: String)
        requires
            spec_cache_wf(old(self)@),
            spec_in_flight_contains(old(self)@, v@),
        ensures
            spec_cache_wf(final(self)@),
            final(self)@.known == old(self)@.known,
            final(self)@.cached =~= old(self)@.cached.push((v@, path@)),
            !spec_in_flight_contains(final(self)@, v@),
            forall|w: VersionModel|
                spec_in_flight_contains(old(self)@, w) && w != v@ ==> spec_in_flight_contains(
                    final(self)@,
                    w,
                ),
            forall|w: VersionModel|
                spec_cached_contains(old(self)@, w) ==> spec_cached_contains(final(self)@, w),
    {
        self.remove_in_flight(v);
        let ghost mid = self@;
        self.cached.push((v.clone(), path));
        proof {
            assert(final(self)@.cached =~= mid.cached.push((v@, path@)));
            assert(final(self)@.known =~= mid.known);
            assert(final(self)@.in_flight =~= mid.in_flight);
            let m = final(self)@;
            assert(forall|i: int| 0 <= i < m.cached.len() - 1 ==> m.cached[i] == mid.cached[i]);
            assert(m.cached[m.cached.len() - 1] == (v@, path@));
            assert forall|w: VersionModel|
                spec_cached_contains(mid, w) implies spec_cached_contains(m, w) by {
                let k = choose|k: int| 0 <= k < mid.cached.len() && mid.cached[k].0 == w;
                assert(m.cached[k].0 == w);
            }
        }
    }

    /// Discards the in-flight record of `v` after a failed or corrupt
    /// download: the version stays known, is not cached, and the next
    /// request may retry the fetch.
    pub fn fetch_failed(&mut self, v: &Version)
        requires
            spec_cache_wf(old(self)@),
            spec_in_flight_contains(old(self)@, v@),
        ensures
            spec_cache_wf(final(self)@),
            final(self)@.known == old(self)@.known,
            final(self)@.cached == old(self)@.cached,
            !spec_in_flight_contains(final(self)@, v@),
            forall|w: VersionModel|
                spec_in_flight_contains(old(self)@, w) && w != v@ ==> spec_in_flight_contains(
                    final(self)@,
                    w,
                ),
    {
        self.remove_in_flight(v);
    }

    /// Removes the single in-flight record of `v`.
    fn remove_in_flight(&mut self, v: &Version)
        requires
            spec_cache_wf(old(self)@),
            spec_in_flight_contains(old(self)@, v@),
        ensures
            spec_cache_wf(final(self)@),
            final(self)@.known == old(self)@.known,
            final(self)@.cached == old(self)@.cached,
            !spec_in_flight_contains(final(self)@, v@),
            forall|w: VersionModel|
                spec_in_flight_contains(old(self)@, w) && w != v@ ==> spec_in_flight_contains(
                    final(self)@,
                    w,
                ),
    {
        let ghost o = self@;
        let n = self.in_flight.len();
        let mut i: usize = 0;
        while i < n
            invariant
                i <= n,
                n == self.in_flight@.len(),
                self@ == o,
                o == old(self)@,
                spec_cache_wf(o),
                spec_in_flight_contains(o, v@),
                forall|j: int| 0 <= j < i ==> o.in_flight[j] != v@,
            decreases n - i,
        {
            if self.in_flight[i].eq(v) {
                proof {
                    assert(o.in_flight[i as int] == v@);
                }
                self.in_flight.remove(i);
                proof {
                    let m = final(self)@;
                    assert(m.in_flight =~= o.in_flight.remove(i as int));
                    assert(m.known =~= o.known);
                    assert(m.cached =~= o.cached);
                    assert forall|w: VersionModel|
                        spec_in_flight_contains(o, w) && w != v@ implies spec_in_flight_contains(
                        m,
                        w,
                    ) by {
                        let k = choose|k: int|
                            0 <= k < o.in_flight.len() && o.in_flight[k] == w;
                        if k < i {
                            assert(m.in_flight[k] == w);
                        } else {
                            assert(m.in_flight[k - 1] == w);
                        }
                    }
                    assert(!spec_in_flight_contains(m, v@)) by {
                        if m.in_flight.contains(v@) {
                            let k = choose|k: int|
                                0 <= k < m.in_flight.len() && m.in_flight[k] == v@;
                            if k < i {
                                assert(o.in_flight[k] == v@);
                            } else {
                                assert(o.in_flight[k + 1] == v@);
                            }
                        }
                    }
                    assert(forall|a: int, b: int|
                        0 <= a < b < m.in_flight.len() ==> m.in_flight[a] != m.in_flight[b]) by {
                        assert(forall|a: int|
                            0 <= a < m.in_flight.len() ==> m.in_flight[a] == (if a < i {
                                o.in_flight[a]
                            } else {
                                o.in_flight[a + 1]
                            }));
                    }
                    assert forall|a: int|
                        0 <= a < m.in_flight.len() implies spec_known_contains(
                        m,
                        #[trigger] m.in_flight[a],
                    ) && !spec_cached_contains(m, m.in_flight[a]) by {
                        if a < i {
                            assert(m.in_flight[a] == o.in_flight[a]);
                        } else {
                            assert(m.in_flight[a] == o.in_flight[a + 1]);
                        }
                        assert(spec_known_contains(o, m.in_flight[a]));
                        assert(!spec_cached_contains(o, m.in_flight[a]));
                    }
                }
                return ;
            }
            i = i + 1;
        }
        proof {
            let k = choose|k: int| 0 <= k < o.in_flight.len() && o.in_flight[k] == v@;
            assert(o.in_flight[k] != v@);
        }
    }

    /// The known-version set, in insertion order.
    pub fn known_versions(&self) -> (r: Vec<Version>)
        ensures
            spec_version_models(r@) == self@.known,
    {
        let n = self.known.len();
        let mut r: Vec<Version> = Vec::new();
        let mut i: usize = 0;
        while i < n
            invariant
                i <= n,
                n == self.known@.len(),
                r@.len() == i,
                forall|j: int| 0 <= j < i ==> r@[j]@ == self@.known[j],
            decreases n - i,
        {
            r.push(self.known[i].clone());
            i = i + 1;
        }
        proof {
            assert(spec_version_models(r@) =~= self@.known);
        }
        r
    }

    /// One refresh tick: merges the freshly listed versions into the
    /// known-version set, in listing order, never removing anything and
    /// never touching cached or in-flight entries.
    pub fn refresh_tick(&mut self, listing: &Vec<Version>)
        requires
            spec_cache_wf(old(self)@),
        ensures
            spec_cache_wf(final(self)@),
            final(self)@.known == spec_merge(old(self)@.known, spec_version_models(listing@)),
            final(self)@.cached == old(self)@.cached,
            final(self)@.in_flight == old(self)@.in_flight,
    {
        let ghost o = self@;
        let ghost ls = spec_version_models(listing@);
        let n = listing.len();
        let mut i: usize = 0;
        while i < n
            invariant
                i <= n,
                n == listing@.len(),
                ls == spec_version_models(listing@),
                o == old(self)@,
                spec_cache_wf(self@),
                self@.known == spec_merge(o.known, ls.take(i as int)),
                self@.cached == o.cached,
                self@.in_flight == o.in_flight,
                spec_cache_wf(o),
            decreases n - i,
        {
            let ghost before = self@;
            let v = &listing[i];
            proof {
                lemma_merge_take_step(o.known, ls, i as int);
            }
            if !contains_version(&self.known, v) {
                self.known.push(v.clone());
                proof {
                    assert(self@.known =~= before.known.push(v@));
                    assert(self@.cached =~= before.cached);
                    assert(self@.in_flight =~= before.in_flight);
                    let m = self@;
                    assert(forall|a: int, b: int|
                        0 <= a < b < m.known.len() ==> m.known[a] != m.known[b]) by {
                        assert(forall|a: int|
                            0 <= a < m.known.len() - 1 ==> m.known[a] == before.known[a]);
                        if before.known.contains(v@) {
                            let k = choose|k: int|
                                0 <= k < before.known.len() && before.known[k] == v@;
                        }
                    }
                    assert forall|a: int|
                        0 <= a < m.cached.len() implies spec_known_contains(
                        m,
                        #[trigger] m.cached[a].0,
                    ) by {
                        assert(spec_known_contains(before, m.cached[a].0));
                        let k = choose|k: int|
                            0 <= k < before.known.len() && before.known[k] == m.cached[a].0;
                        assert(m.known[k] == m.cached[a].0);
                    }
                    assert forall|a: int|
                        0 <= a < m.in_flight.len() implies spec_known_contains(
                        m,
                        #[trigger] m.in_flight[a],
                    ) by {
                        assert(spec_known_contains(before, m.in_flight[a]));
                        let k = choose|k: int|
                            0 <= k < before.known.len() && before.known[k] == m.in_flight[a];
                        assert(m.known[k] == m.in_flight[a]);
                    }
                    assert(forall|a: int|
                        0 <= a < m.in_flight.len() ==> !spec_cached_contains(
                            m,
                            #[trigger] m.in_flight[a],
                        ));
                }
            }
            proof {
                assert(self@.known == spec_merge_one(before.known, ls[i as int]));
            }
            i = i + 1;
        }
        proof {
            assert(ls.take(n as int) =~= ls);
        }
    }
}

/// Merging one more listed version extends the merge of the listing's
/// prefix by one insertion step.
proof fn lemma_merge_take_step(known: Seq<VersionModel>, ls: Seq<VersionModel>, i: int)
    requires
        0 <= i < ls.len(),
    ensures
        spec_merge(known, ls.take(i + 1)) == spec_merge_one(spec_merge(known, ls.take(i)), ls[i]),
    decreases i,
{
    reveal_with_fuel(spec_merge, 3);
    if i == 0 {
        assert(ls.take(0) =~= Seq::<VersionModel>::empty());
        assert(ls.take(1)[0] == ls[0]);
        assert(ls.take(1).skip(1) =~= Seq::<VersionModel>::empty());
    } else {
        let k2 = spec_merge_one(known, ls[0]);
        assert(ls.take(i + 1)[0] == ls[0]);
        assert(ls.take(i)[0] == ls[0]);
        assert(ls.take(i + 1).skip(1) =~= ls.skip(1).take(i));
        assert(ls.take(i).skip(1) =~= ls.skip(1).take(i - 1));
        lemma_merge_take_step(k2, ls.skip(1), i - 1);
        assert(ls.skip(1)[i - 1] == ls[i]);
    }
}

} // verus!
