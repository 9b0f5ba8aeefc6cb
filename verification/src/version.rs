//! Compiler version identifiers.
//!
//! A version is written `MAJOR.MINOR.PATCH`, optionally preceded by `v`
//! and optionally followed by a suffix that begins with `-` (a pre-release
//! tag, as nightly compiler builds carry) or `+` (build metadata, such as
//! a commit hash) and is kept verbatim, separator included. Each numeric
//! component has at most nineteen decimal digits, so its value always
//! fits in a `u64`. Versions are ordered by their numeric components; the
//! suffix never takes part in the ordering, only in equality.

use vstd::prelude::*;

verus! {

/// A parsed, immutable compiler version identifier, used as the cache key.
#[derive(Debug)]
pub struct Version {
    pub major: u64,
    pub minor: u64,
    pub patch: u64,
    /// Everything after the numeric components — a pre-release tag, build
    /// metadata or both — verbatim, including its leading `-` or `+`.
    pub suffix: Option<String>,
}

impl View for Version {
    type V = (int, int, int, Option<Seq<char>>);

    open spec fn view(&self) -> (int, int, int, Option<Seq<char>>) {
        (
            self.major as int,
            self.minor as int,
            self.patch as int,
            match self.suffix {
                Some(b) => Some(b@),
                None => None,
            },
        )
    }
}

pub open spec fn spec_is_digit(c: char) -> bool {
    ('0' as u32) <= (c as u32) && (c as u32) <= ('9' as u32)
}

pub open spec fn spec_digit_value(c: char) -> int {
    c as u32 - '0' as u32
}

pub open spec fn spec_all_digits(s: Seq<char>) -> bool {
    forall|i: int| 0 <= i < s.len() ==> spec_is_digit(#[trigger] s[i])
}

/// Value of a digit string read in base ten.
pub open spec fn spec_digits_value(s: Seq<char>) -> int
    decreases s.len(),
{
    if s.len() == 0 {
        0
    } else {
        spec_digits_value(s.drop_last()) * 10 + spec_digit_value(s.last())
    }
}

pub open spec fn spec_pow10(n: nat) -> int
    decreases n,
{
    if n == 0 {
        1
    } else {
        10 * spec_pow10((n - 1) as nat)
    }
}

/// A numeric component: one to nineteen decimal digits, so that the value
/// fits in a `u64`.
pub open spec fn spec_valid_number(s: Seq<char>) -> bool {
    1 <= s.len() <= 19 && spec_all_digits(s)
}

/// Index of the first occurrence of `c` in `s`.
pub open spec fn spec_find_char(s: Seq<char>, c: char) -> Option<int>
    decreases s.len(),
{
    if s.len() == 0 {
        None
    } else if s[0] == c {
        Some(0)
    } else {
        match spec_find_char(s.skip(1), c) {
            Some(i) => Some(i + 1),
            None => None,
        }
    }
}

pub proof fn lemma_find_char_correct(s: Seq<char>, c: char)
    ensures
        match spec_find_char(s, c) {
            Some(i) => 0 <= i < s.len() && s[i] == c && forall|j: int| 0 <= j < i ==> s[j] != c,
            None => forall|j: int| 0 <= j < s.len() ==> s[j] != c,
        },
    decreases s.len(),
{
    if s.len() > 0 && s[0] != c {
        lemma_find_char_correct(s.skip(1), c);
        assert(forall|j: int| 1 <= j < s.len() ==> s[j] == s.skip(1)[j - 1]);
    }
}

/// A character that begins the suffix of a version string.
pub open spec fn spec_is_sep(c: char) -> bool {
    c == '+' || c == '-'
}

/// Index of the first suffix separator in `s`.
pub open spec fn spec_find_sep(s: Seq<char>) -> Option<int>
    decreases s.len(),
{
    if s.len() == 0 {
        None
    } else if spec_is_sep(s[0]) {
        Some(0)
    } else {
        match spec_find_sep(s.skip(1)) {
            Some(i) => Some(i + 1),
            None => None,
        }
    }
}

pub proof fn lemma_find_sep_correct(s: Seq<char>)
    ensures
        match spec_find_sep(s) {
            Some(i) => 0 <= i < s.len() && spec_is_sep(s[i]) && forall|j: int|
                0 <= j < i ==> !spec_is_sep(s[j]),
            None => forall|j: int| 0 <= j < s.len() ==> !spec_is_sep(s[j]),
        },
    decreases s.len(),
{
    if s.len() > 0 && !spec_is_sep(s[0]) {
        lemma_find_sep_correct(s.skip(1));
        assert(forall|j: int| 1 <= j < s.len() ==> s[j] == s.skip(1)[j - 1]);
    }
}

/// First suffix separator in `v` within `[from, to)`, as an absolute index.
fn find_sep(v: &Vec<char>, from: usize, to: usize) -> (r: Option<usize>)
    requires
        from <= to <= v@.len(),
    ensures
        r is Some <==> spec_find_sep(v@.subrange(from as int, to as int)) is Some,
        r matches Some(k) ==> from <= k < to && spec_is_sep(v@[k as int]) && spec_find_sep(
            v@.subrange(from as int, to as int),
        ) == Some(k - from),
{
    let ghost sub = v@.subrange(from as int, to as int);
    let mut i: usize = from;
    while i < to
        invariant
            from <= i <= to <= v@.len(),
            sub == v@.subrange(from as int, to as int),
            forall|j: int| from <= j < i ==> !spec_is_sep(v@[j]),
        decreases to - i,
    {
        let c = v[i];
        if c == '+' || c == '-' {
            proof {
                lemma_find_sep_correct(sub);
                assert(spec_is_sep(sub[i - from]));
                assert forall|j: int| 0 <= j < i - from implies !spec_is_sep(sub[j]) by {
                    assert(sub[j] == v@[from + j]);
                }
            }
            return Some(i);
        }
        i = i + 1;
    }
    proof {
        lemma_find_sep_correct(sub);
        assert forall|j: int| 0 <= j < sub.len() implies !spec_is_sep(sub[j]) by {
            assert(sub[j] == v@[from + j]);
        }
    }
    None
}

pub proof fn lemma_digits_value_bound(s: Seq<char>)
    requires
        spec_all_digits(s),
    ensures
        0 <= spec_digits_value(s) < spec_pow10(s.len()),
    decreases s.len(),
{
    if s.len() > 0 {
        assert(spec_all_digits(s.drop_last())) by {
            assert(forall|i: int|
                0 <= i < s.len() - 1 ==> s.drop_last()[i] == #[trigger] s[i]);
        }
        lemma_digits_value_bound(s.drop_last());
    }
}

pub proof fn lemma_pow10_increases(a: nat, b: nat)
    requires
        a <= b,
    ensures
        spec_pow10(a) <= spec_pow10(b),
    decreases b,
{
    if a < b {
        lemma_pow10_increases(a, (b - 1) as nat);
        assert(spec_pow10((b - 1) as nat) >= 1) by {
            lemma_pow10_increases(0, (b - 1) as nat);
        }
    }
}

/// The numeric core (everything after an optional leading `v`, before the
/// first `-` or `+`) and the suffix of a version string — the suffix kept
/// verbatim, separator included — or `None` when a separator is present
/// with nothing after it.
pub open spec fn spec_version_parts(s: Seq<char>) -> Option<(Seq<char>, Option<Seq<char>>)> {
    let t = if s.len() > 0 && s[0] == 'v' {
        s.skip(1)
    } else {
        s
    };
    match spec_find_sep(t) {
        Some(i) => {
            if i + 2 <= t.len() {
                Some((t.take(i), Some(t.skip(i))))
            } else {
                None
            }
        },
        None => Some((t, None)),
    }
}

/// The parsed fields of a version string, or `None` when the string is
/// not a well-formed version.
pub open spec fn spec_parse_version(s: Seq<char>) -> Option<(int, int, int, Option<Seq<char>>)> {
    match spec_version_parts(s) {
        None => None,
        Some((core, suffix)) => match spec_find_char(core, '.') {
            None => None,
            Some(i) => {
                let major = core.take(i);
                let rest = core.skip(i + 1);
                match spec_find_char(rest, '.') {
                    None => None,
                    Some(j) => {
                        let minor = rest.take(j);
                        let patch = rest.skip(j + 1);
                        if spec_valid_number(major) && spec_valid_number(minor)
                            && spec_valid_number(patch) && spec_find_char(patch, '.') is None {
                            Some(
                                (
                                    spec_digits_value(major),
                                    spec_digits_value(minor),
                                    spec_digits_value(patch),
                                    suffix,
                                ),
                            )
                        } else {
                            None
                        }
                    },
                }
            },
        },
    }
}

/// The characters of `s`, one per element.
pub(crate) fn chars_vec(s: &str) -> (v: Vec<char>)
    ensures
        v@ == s@,
{
    let n = s.unicode_len();
    let mut v: Vec<char> = Vec::new();
    let mut i: usize = 0;
    while i < n
        invariant
            i <= n,
            n == s@.len(),
            v@ == s@.take(i as int),
        decreases n - i,
    {
        let c = s.get_char(i);
        v.push(c);
        proof {
            assert(v@ =~= s@.take(i + 1));
        }
        i = i + 1;
    }
    proof {
        assert(v@ =~= s@);
    }
    v
}

/// First occurrence of `c` in `v` within `[from, to)`, as an absolute index.
pub(crate) fn find_from(v: &Vec<char>, from: usize, to: usize, c: char) -> (r: Option<usize>)
    requires
        from <= to <= v@.len(),
    ensures
        r is Some <==> spec_find_char(v@.subrange(from as int, to as int), c) is Some,
        r matches Some(k) ==> from <= k < to && v@[k as int] == c && spec_find_char(
            v@.subrange(from as int, to as int),
            c,
        ) == Some(k - from),
{
    let ghost sub = v@.subrange(from as int, to as int);
    let mut i: usize = from;
    while i < to
        invariant
            from <= i <= to <= v@.len(),
            sub == v@.subrange(from as int, to as int),
            forall|j: int| from <= j < i ==> v@[j] != c,
        decreases to - i,
    {
        if v[i] == c {
            proof {
                lemma_find_char_correct(sub, c);
                assert(sub[i - from] == c);
                assert forall|j: int| 0 <= j < i - from implies sub[j] != c by {
                    assert(sub[j] == v@[from + j]);
                }
            }
            return Some(i);
        }
        i = i + 1;
    }
    proof {
        lemma_find_char_correct(sub, c);
        assert forall|j: int| 0 <= j < sub.len() implies sub[j] != c by {
            assert(sub[j] == v@[from + j]);
        }
    }
    None
}

/// Value of the digit string `v[from..to]`, or `None` when it is not a
/// valid numeric component.
fn parse_number(v: &Vec<char>, from: usize, to: usize) -> (r: Option<u64>)
    requires
        from <= to <= v@.len(),
    ensures
        ({
            let s = v@.subrange(from as int, to as int);
            if spec_valid_number(s) {
                r matches Some(x) && x as int == spec_digits_value(s)
            } else {
                r is None
            }
        }),
{
    let ghost s = v@.subrange(from as int, to as int);
    if to - from < 1 || to - from > 19 {
        return None;
    }
    let mut acc: u64 = 0;
    let mut i: usize = from;
    while i < to
        invariant
            from <= i <= to <= v@.len(),
            to - from <= 19,
            s == v@.subrange(from as int, to as int),
            spec_all_digits(s.take(i - from)),
            acc as int == spec_digits_value(s.take(i - from)),
            (acc as int) < spec_pow10((i - from) as nat),
        decreases to - i,
    {
        let c = v[i];
        let d = c as u32;
        if d < ('0' as u32) || d > ('9' as u32) {
            proof {
                assert(!spec_is_digit(s[i - from]));
                assert(!spec_valid_number(s));
            }
            return None;
        }
        proof {
            assert(spec_all_digits(s.take(i + 1 - from))) by {
                assert(forall|j: int|
                    0 <= j < i - from ==> s.take(i + 1 - from)[j] == #[trigger] s.take(i - from)[j]);
                assert(s.take(i + 1 - from)[i - from] == s[i - from]);
                assert(spec_is_digit(s[i - from]));
            }
            lemma_digits_value_bound(s.take(i + 1 - from));
            lemma_pow10_increases((i + 1 - from) as nat, 19);
            assert(spec_pow10(19) == 10_000_000_000_000_000_000) by {
                reveal_with_fuel(spec_pow10, 20);
            }
            assert(s.take(i + 1 - from).drop_last() =~= s.take(i - from));
            assert(s.take(i + 1 - from).last() == s[i - from]);
        }
        acc = acc * 10 + ((d - ('0' as u32)) as u64);
        i = i + 1;
    }
    proof {
        assert(s.take(to - from) =~= s);
    }
    Some(acc)
}

impl Version {
    /// Parses a version string; returns `None` exactly on strings that are
    /// not well-formed versions.
    #[verifier::rlimit(50)]
    pub fn parse(s: &str) -> (r: Option<Version>)
        ensures
            match spec_parse_version(s@) {
                Some(m) => r matches Some(v) && v@ == m,
                None => r is None,
            },
    {
        let chars = chars_vec(s);
        let n = chars.len();
        let start: usize = if n > 0 && chars[0] == 'v' {
            1
        } else {
            0
        };
        let ghost t = if s@.len() > 0 && s@[0] == 'v' {
            s@.skip(1)
        } else {
            s@
        };
        proof {
            assert(t =~= chars@.subrange(start as int, n as int));
        }
        // Split off the suffix at the first '-' or '+'.
        let (core_end, suffix) = match find_sep(&chars, start, n) {
            Some(p) => {
                if p >= n - 1 {
                    proof {
                        let fp = spec_find_sep(t);
                        assert(fp == Some(p - start));
                        assert(spec_version_parts(s@) is None);
                    }
                    return None;
                }
                let b = s.substring_char(p, n).to_owned();
                proof {
                    assert(b@ =~= t.skip(p - start));
                }
                (p, Some(b))
            },
            None => (n, None),
        };
        let ghost core = t.take(core_end - start);
        let ghost suffix_view = match &suffix {
            Some(b) => Some(b@),
            None => None,
        };
        proof {
            assert(core =~= chars@.subrange(start as int, core_end as int));
            assert(spec_version_parts(s@) == Some::<(Seq<char>, Option<Seq<char>>)>(
                (core, suffix_view),
            ));
        }
        // First '.' splits the major component from the rest.
        let d1 = match find_from(&chars, start, core_end, '.') {
            Some(i) => i,
            None => {
                return None;
            },
        };
        let ghost rest = core.skip(d1 - start + 1);
        proof {
            assert(rest =~= chars@.subrange(d1 + 1, core_end as int));
            assert(core.take(d1 - start) =~= chars@.subrange(start as int, d1 as int));
        }
        // Second '.' splits the minor component from the patch component.
        let d2 = match find_from(&chars, d1 + 1, core_end, '.') {
            Some(i) => i,
            None => {
                return None;
            },
        };
        let ghost minor_s = rest.take(d2 - d1 - 1);
        let ghost patch_s = rest.skip(d2 - d1);
        proof {
            assert(minor_s =~= chars@.subrange(d1 + 1, d2 as int));
            assert(patch_s =~= chars@.subrange(d2 + 1, core_end as int));
        }
        // A third '.' inside the patch component is not a version.
        match find_from(&chars, d2 + 1, core_end, '.') {
            Some(_) => {
                return None;
            },
            None => {},
        }
        let major = match parse_number(&chars, start, d1) {
            Some(x) => x,
            None => {
                return None;
            },
        };
        let minor = match parse_number(&chars, d1 + 1, d2) {
            Some(x) => x,
            None => {
                return None;
            },
        };
        let patch = match parse_number(&chars, d2 + 1, core_end) {
            Some(x) => x,
            None => {
                return None;
            },
        };
        Some(Version { major, minor, patch, suffix })
    }

    /// `self` is strictly newer than `other` by numeric components; the
    /// suffix is ignored.
    pub fn newer_than(&self, other: &Version) -> (r: bool)
        ensures
            r == spec_version_newer(self@, other@),
    {
        self.major > other.major || (self.major == other.major && (self.minor > other.minor || (
        self.minor == other.minor && self.patch > other.patch)))
    }
}

/// Strict ordering on versions: lexicographic on the numeric components.
pub open spec fn spec_version_newer(
    a: (int, int, int, Option<Seq<char>>),
    b: (int, int, int, Option<Seq<char>>),
) -> bool {
    a.0 > b.0 || (a.0 == b.0 && (a.1 > b.1 || (a.1 == b.1 && a.2 > b.2)))
}

/// The newest version of a listing by numeric components, used by the
/// refresh bookkeeping; among versions with equal components the first
/// listed is kept. `None` exactly on an empty listing.
pub fn latest_version(versions: &Vec<Version>) -> (r: Option<&Version>)
    ensures
        (r is Some <==> versions@.len() > 0),
        r matches Some(best) ==> (forall|i: int|
            0 <= i < versions@.len() ==> !spec_version_newer(versions@[i]@, best@)) && (exists|
            k: int,
        |
            0 <= k < versions@.len() && versions@[k]@ == best@ && (forall|j: int|
                0 <= j < k ==> spec_version_newer(best@, versions@[j]@))),
{
    let n = versions.len();
    if n == 0 {
        return None;
    }
    let mut best: usize = 0;
    let mut i: usize = 1;
    while i < n
        invariant
            best < i <= n,
            n == versions@.len(),
            forall|j: int|
                0 <= j < i ==> !spec_version_newer(versions@[j]@, versions@[best as int]@),
            forall|j: int| 0 <= j < best ==> spec_version_newer(versions@[best as int]@, versions@[
                j
            ]@),
        decreases n - i,
    {
        if versions[i].newer_than(&versions[best]) {
            best = i;
        }
        i = i + 1;
    }
    Some(&versions[best])
}

impl Clone for Version {
    fn clone(&self) -> (r: Version)
        ensures
            r == *self,
    {
        Version {
            major: self.major,
            minor: self.minor,
            patch: self.patch,
            suffix: match &self.suffix {
                Some(b) => Some(b.clone()),
                None => None,
            },
        }
    }
}

impl PartialEq for Version {
    fn eq(&self, other: &Version) -> (r: bool) {
        self.major == other.major && self.minor == other.minor && self.patch == other.patch
            && match (&self.suffix, &other.suffix) {
            (Some(a), Some(b)) => a.eq(b),
            (None, None) => true,
            _ => false,
        }
    }
}

impl vstd::std_specs::cmp::PartialEqSpecImpl for Version {
    open spec fn obeys_eq_spec() -> bool {
        true
    }

    open spec fn eq_spec(&self, other: &Version) -> bool {
        self@ == other@
    }
}

} // verus!
