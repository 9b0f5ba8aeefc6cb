//! Compiler-ready input: the source files and the fixed settings block
//! handed to a compiler invocation.
//!
//! The source files are kept unique by path and in ascending path order,
//! the order a path-keyed ordered map would iterate in, so that two
//! requests naming the same files produce the same compiler input.

use vstd::prelude::*;

use crate::version::chars_vec;

verus! {

/// Optimizer block of the compiler settings. For verification both knobs
/// are left unset, so the compiler's own defaults apply.
pub struct OptimizerSettings {
    pub enabled: Option<bool>,
    pub runs: Option<u64>,
}

/// Settings block of a compiler invocation: the optimizer knobs and the
/// target EVM version carried through from the request.
pub struct CompilerSettings {
    pub optimizer: OptimizerSettings,
    pub evm_version: Option<String>,
}

/// A normalized, compiler-ready input: the language name, the source
/// files as path/content pairs, unique by path and in ascending path
/// order (so compiler input is reproducible), and the settings block.
pub struct CompilerInput {
    pub language: String,
    pub sources: Vec<(String, String)>,
    pub settings: CompilerSettings,
}

/// Strict lexicographic order on path strings, by character code.
pub open spec fn spec_str_lt(a: Seq<char>, b: Seq<char>) -> bool
    decreases a.len(),
{
    if b.len() == 0 {
        false
    } else if a.len() == 0 {
        true
    } else if a[0] == b[0] {
        spec_str_lt(a.skip(1), b.skip(1))
    } else {
        (a[0] as u32) < (b[0] as u32)
    }
}

pub proof fn lemma_str_lt_irreflexive(a: Seq<char>)
    ensures
        !spec_str_lt(a, a),
    decreases a.len(),
{
    if a.len() > 0 {
        lemma_str_lt_irreflexive(a.skip(1));
    }
}

/// Any two distinct strings are ordered one way or the other.
pub proof fn lemma_str_lt_connected(a: Seq<char>, b: Seq<char>)
    ensures
        spec_str_lt(a, b) || spec_str_lt(b, a) || a == b,
    decreases a.len(),
{
    if b.len() == 0 {
        if a.len() == 0 {
            assert(a =~= b);
        } else {
            assert(spec_str_lt(b, a));
        }
    } else if a.len() == 0 {
        assert(spec_str_lt(a, b));
    } else if a[0] == b[0] {
        lemma_str_lt_connected(a.skip(1), b.skip(1));
        assert(spec_str_lt(a, b) == spec_str_lt(a.skip(1), b.skip(1)));
        assert(spec_str_lt(b, a) == spec_str_lt(b.skip(1), a.skip(1)));
        if !spec_str_lt(a, b) && !spec_str_lt(b, a) {
            assert(a.skip(1) == b.skip(1));
            assert(a =~= b) by {
                assert(forall|i: int| 1 <= i < a.len() ==> a[i] == a.skip(1)[i - 1]);
                assert(forall|i: int| 1 <= i < b.len() ==> b[i] == b.skip(1)[i - 1]);
            }
        }
    } else {
        let x: char = a[0];
        let y: char = b[0];
        vstd::utf8::char_u32_cast(x, x as u32);
        vstd::utf8::char_u32_cast(y, y as u32);
        assert((x as u32) != (y as u32));
        if (a[0] as u32) < (b[0] as u32) {
            assert(spec_str_lt(a, b));
        } else {
            assert(spec_str_lt(b, a));
        }
    }
}

pub proof fn lemma_str_lt_transitive(a: Seq<char>, b: Seq<char>, c: Seq<char>)
    requires
        spec_str_lt(a, b),
        spec_str_lt(b, c),
    ensures
        spec_str_lt(a, c),
    decreases a.len(),
{
    if a.len() > 0 && b.len() > 0 && a[0] == b[0] && b[0] == c[0] {
        lemma_str_lt_transitive(a.skip(1), b.skip(1), c.skip(1));
    }
}

/// Decides `spec_str_lt` on two strings.
fn str_less_than(a: &String, b: &String) -> (r: bool)
    ensures
        r == spec_str_lt(a@, b@),
{
    let av = chars_vec(a.as_str());
    let bv = chars_vec(b.as_str());
    let na = av.len();
    let nb = bv.len();
    proof {
        assert(a@.skip(0) =~= a@);
        assert(b@.skip(0) =~= b@);
    }
    let mut i: usize = 0;
    while i < na && i < nb
        invariant
            i <= na,
            i <= nb,
            na == a@.len(),
            nb == b@.len(),
            av@ == a@,
            bv@ == b@,
            spec_str_lt(a@, b@) == spec_str_lt(a@.skip(i as int), b@.skip(i as int)),
        decreases na - i,
    {
        let ca = av[i];
        let cb = bv[i];
        proof {
            assert(a@.skip(i as int)[0] == a@[i as int]);
            assert(b@.skip(i as int)[0] == b@[i as int]);
            assert(a@.skip(i as int).skip(1) =~= a@.skip(i + 1));
            assert(b@.skip(i as int).skip(1) =~= b@.skip(i + 1));
        }
        if ca != cb {
            return (ca as u32) < (cb as u32);
        }
        i = i + 1;
    }
    proof {
        assert(a@.skip(i as int).len() == a@.len() - i);
        assert(b@.skip(i as int).len() == b@.len() - i);
    }
    i < nb
}

/// The sources are strictly ascending by path, so each path occurs once.
pub open spec fn spec_sources_sorted(s: Seq<(String, String)>) -> bool {
    forall|i: int, j: int| 0 <= i < j < s.len() ==> spec_str_lt(s[i].0@, s[j].0@)
}

/// Index of the first source entry for path `k`.
pub open spec fn spec_source_index(s: Seq<(String, String)>, k: Seq<char>) -> Option<int>
    decreases s.len(),
{
    if s.len() == 0 {
        None
    } else if s[0].0@ == k {
        Some(0)
    } else {
        match spec_source_index(s.skip(1), k) {
            Some(i) => Some(i + 1),
            None => None,
        }
    }
}

/// Text of the source at path `k`, when present.
pub open spec fn spec_source_text(s: Seq<(String, String)>, k: Seq<char>) -> Option<Seq<char>> {
    match spec_source_index(s, k) {
        Some(i) => Some(s[i].1@),
        None => None,
    }
}

pub proof fn lemma_source_index_correct(s: Seq<(String, String)>, k: Seq<char>)
    ensures
        match spec_source_index(s, k) {
            Some(i) => 0 <= i < s.len() && s[i].0@ == k && forall|j: int|
                0 <= j < i ==> s[j].0@ != k,
            None => forall|j: int| 0 <= j < s.len() ==> s[j].0@ != k,
        },
    decreases s.len(),
{
    if s.len() > 0 && s[0].0@ != k {
        lemma_source_index_correct(s.skip(1), k);
        assert(forall|j: int| 1 <= j < s.len() ==> s[j] == s.skip(1)[j - 1]);
    }
}

/// First position whose path is not below `path`; insertion keeps the
/// sources sorted there.
fn source_position(sources: &Vec<(String, String)>, path: &String) -> (idx: usize)
    requires
        spec_sources_sorted(sources@),
    ensures
        idx <= sources@.len(),
        forall|j: int| 0 <= j < idx ==> spec_str_lt(sources@[j].0@, path@),
        idx < sources@.len() ==> !spec_str_lt(sources@[idx as int].0@, path@),
{
    let n = sources.len();
    let mut i: usize = 0;
    while i < n
        invariant
            i <= n,
            n == sources@.len(),
            forall|j: int| 0 <= j < i ==> spec_str_lt(sources@[j].0@, path@),
        decreases n - i,
    {
        if !str_less_than(&sources[i].0, path) {
            return i;
        }
        i = i + 1;
    }
    n
}

/// Puts `(path, text)` into the sorted sources: an existing entry for the
/// path is replaced, any other entry stays where it is.
fn insert_source(sources: &mut Vec<(String, String)>, path: String, text: String)
    requires
        spec_sources_sorted(old(sources)@),
    ensures
        spec_sources_sorted(final(sources)@),
        spec_source_text(final(sources)@, path@) == Some(text@),
        forall|k: Seq<char>| k != path@ ==> #[trigger] spec_source_text(final(sources)@, k)
            == spec_source_text(old(sources)@, k),
        forall|i: int| 0 <= i < final(sources)@.len() ==> #[trigger] final(sources)@[i] == (
        path, text) || old(sources)@.contains(final(sources)@[i]),
        forall|j: int| 0 <= j < old(sources)@.len() ==> #[trigger] spec_source_text(
            final(sources)@,
            old(sources)@[j].0@,
        ) is Some,
{
    let ghost s = sources@;
    let ghost kp = path@;
    let idx = source_position(sources, &path);
    let replacing = idx < sources.len() && sources[idx].0.eq(&path);
    if replacing {
        sources.remove(idx);
        let ghost s1 = sources@;
        sources.insert(idx, (path, text));
        proof {
            let s2 = final(sources)@;
            assert(s1 == s.remove(idx as int));
            assert(s2 == s1.insert(idx as int, (path, text)));
            assert(s2.len() == s.len());
            assert forall|j: int| 0 <= j < s.len() && j != idx implies s2[j] == s[j] by {
                if j < idx {
                } else {
                    assert(s1[j - 1] == s[j]);
                }
            }
            assert(s2[idx as int] == (path, text));
            assert(s[idx as int].0@ == kp);
            lemma_insert_source_holds(s, s2, idx as int, kp, text@);
        }
    } else {
        sources.insert(idx, (path, text));
        proof {
            let s2 = final(sources)@;
            assert(s2 == s.insert(idx as int, (path, text)));
            assert(s2.len() == s.len() + 1);
            assert(forall|j: int| 0 <= j < idx ==> s2[j] == s[j]);
            assert(forall|j: int| idx < j < s2.len() ==> s2[j] == s[j - 1]);
            assert(s2[idx as int] == (path, text));
            if idx < s.len() {
                assert(!spec_str_lt(s[idx as int].0@, kp));
                assert(s[idx as int].0@ != kp);
                lemma_str_lt_connected(s[idx as int].0@, kp);
            }
            lemma_insert_source_grows(s, s2, idx as int, kp, text@);
        }
    }
}

/// After replacing the entry at `idx` (whose path is `kp`) by `(kp, text)`,
/// the sources keep their order and every other path keeps its text.
proof fn lemma_insert_source_holds(
    s: Seq<(String, String)>,
    s2: Seq<(String, String)>,
    idx: int,
    kp: Seq<char>,
    text: Seq<char>,
)
    requires
        spec_sources_sorted(s),
        0 <= idx < s.len(),
        s.len() == s2.len(),
        s[idx].0@ == kp,
        s2[idx].0@ == kp,
        s2[idx].1@ == text,
        forall|j: int| 0 <= j < s.len() && j != idx ==> s2[j] == s[j],
    ensures
        spec_sources_sorted(s2),
        spec_source_text(s2, kp) == Some(text),
        forall|k: Seq<char>| k != kp ==> #[trigger] spec_source_text(s2, k) == spec_source_text(
            s,
            k,
        ),
        forall|j: int| 0 <= j < s.len() ==> #[trigger] spec_source_text(s2, s[j].0@) is Some,
{
    assert forall|i: int, j: int| 0 <= i < j < s2.len() implies spec_str_lt(
        s2[i].0@,
        s2[j].0@,
    ) by {
        assert(s2[i].0@ == s[i].0@);
        assert(s2[j].0@ == s[j].0@);
    }
    lemma_source_index_correct(s, kp);
    lemma_source_index_correct(s2, kp);
    assert forall|j: int| 0 <= j < idx implies s[j].0@ != kp by {
        if s[j].0@ == kp {
            lemma_str_lt_irreflexive(kp);
        }
    }
    assert(spec_source_index(s2, kp) == Some(idx));
    assert forall|k: Seq<char>| k != kp implies #[trigger] spec_source_text(s2, k)
        == spec_source_text(s, k) by {
        lemma_source_index_correct(s, k);
        lemma_source_index_correct(s2, k);
        match spec_source_index(s, k) {
            Some(i) => {
                assert(s2[i].0@ == k);
                assert(spec_source_index(s2, k) == Some(i));
                assert(s2[i].1@ == s[i].1@);
            },
            None => {
                assert(forall|j: int| 0 <= j < s2.len() && j != idx ==> s2[j].0@ != k);
                assert(spec_source_index(s2, k) is None);
            },
        }
    }
    assert forall|j: int| 0 <= j < s.len() implies #[trigger] spec_source_text(s2, s[j].0@)
        is Some by {
        if s[j].0@ != kp {
            lemma_source_index_correct(s, s[j].0@);
        }
    }
}

/// After inserting `(kp, text)` at `idx`, with everything before strictly
/// below `kp` and everything after strictly above, the sources keep their
/// order, `kp` maps to `text`, and every other path keeps its text.
proof fn lemma_insert_source_grows(
    s: Seq<(String, String)>,
    s2: Seq<(String, String)>,
    idx: int,
    kp: Seq<char>,
    text: Seq<char>,
)
    requires
        spec_sources_sorted(s),
        0 <= idx <= s.len(),
        s2.len() == s.len() + 1,
        s2[idx].0@ == kp,
        s2[idx].1@ == text,
        forall|j: int| 0 <= j < idx ==> s2[j] == s[j],
        forall|j: int| idx < j < s2.len() ==> s2[j] == s[j - 1],
        forall|j: int| 0 <= j < idx ==> spec_str_lt(s[j].0@, kp),
        idx < s.len() ==> spec_str_lt(kp, s[idx].0@),
    ensures
        spec_sources_sorted(s2),
        spec_source_text(s2, kp) == Some(text),
        forall|k: Seq<char>| k != kp ==> #[trigger] spec_source_text(s2, k) == spec_source_text(
            s,
            k,
        ),
        forall|j: int| 0 <= j < s.len() ==> #[trigger] spec_source_text(s2, s[j].0@) is Some,
{
    assert forall|i: int, j: int| 0 <= i < j < s2.len() implies spec_str_lt(
        s2[i].0@,
        s2[j].0@,
    ) by {
        if i < idx && j == idx {
        } else if i == idx && j > idx {
            if j - 1 > idx {
                lemma_str_lt_transitive(kp, s[idx].0@, s[j - 1].0@);
            }
        } else if i < idx && j > idx {
            assert(s2[i] == s[i]);
            assert(s2[j] == s[j - 1]);
            if j - 1 == i {
                assert(i < idx && idx < j && j - 1 == i);
            } else {
                assert(spec_str_lt(s[i].0@, s[j - 1].0@));
            }
        } else if j < idx {
        } else if i > idx {
            assert(s2[i] == s[i - 1]);
            assert(s2[j] == s[j - 1]);
        }
    }
    assert forall|j: int| 0 <= j < idx implies s2[j].0@ != kp by {
        if s2[j].0@ == kp {
            lemma_str_lt_irreflexive(kp);
        }
    }
    lemma_source_index_correct(s2, kp);
    assert(spec_source_index(s2, kp) == Some(idx));
    assert(idx < s.len() ==> s[idx].0@ != kp) by {
        if idx < s.len() && s[idx].0@ == kp {
            lemma_str_lt_irreflexive(kp);
        }
    }
    assert forall|k: Seq<char>| k != kp implies #[trigger] spec_source_text(s2, k)
        == spec_source_text(s, k) by {
        lemma_source_index_correct(s, k);
        lemma_source_index_correct(s2, k);
        match spec_source_index(s, k) {
            Some(i) => {
                let i2: int = if i < idx {
                    i
                } else {
                    i + 1
                };
                assert(s2[i2].0@ == k);
                assert(s2[i2].1@ == s[i].1@);
                assert forall|j: int| 0 <= j < i2 implies s2[j].0@ != k by {
                    if j < idx {
                        assert(s2[j] == s[j]);
                    } else if j == idx {
                    } else {
                        assert(s2[j] == s[j - 1]);
                    }
                }
                assert(spec_source_index(s2, k) == Some(i2));
            },
            None => {
                assert forall|j: int| 0 <= j < s2.len() implies s2[j].0@ != k by {
                    if j < idx {
                        assert(s2[j] == s[j]);
                    } else if j > idx {
                        assert(s2[j] == s[j - 1]);
                    }
                }
                assert(spec_source_index(s2, k) is None);
            },
        }
    }
    assert forall|j: int| 0 <= j < s.len() implies #[trigger] spec_source_text(s2, s[j].0@)
        is Some by {
        if s[j].0@ != kp {
            lemma_source_index_correct(s, s[j].0@);
        }
    }
}

/// Normalizes request sources the way a path-keyed ordered map would:
/// one entry per path, ascending path order, and where the request named
/// a path twice, the text of its last occurrence.
pub fn normalize_sources(sources: Vec<(String, String)>) -> (r: Vec<(String, String)>)
    ensures
        spec_sources_sorted(r@),
        forall|i: int| 0 <= i < r@.len() ==> sources@.contains(#[trigger] r@[i]),
        forall|j: int| 0 <= j < sources@.len() ==> #[trigger] spec_source_text(
            r@,
            sources@[j].0@,
        ) is Some,
        forall|j: int|
            0 <= j < sources@.len() && (forall|j2: int|
                j < j2 < sources@.len() ==> sources@[j2].0@ != sources@[j].0@)
                ==> #[trigger] spec_source_text(r@, sources@[j].0@) == Some(sources@[j].1@),
{
    let n = sources.len();
    let mut out: Vec<(String, String)> = Vec::new();
    let mut t: usize = 0;
    while t < n
        invariant
            t <= n,
            n == sources@.len(),
            spec_sources_sorted(out@),
            forall|i: int| 0 <= i < out@.len() ==> sources@.contains(#[trigger] out@[i]),
            forall|j: int| 0 <= j < t ==> #[trigger] spec_source_text(out@, sources@[j].0@)
                is Some,
            forall|j: int|
                0 <= j < t && (forall|j2: int| j < j2 < t ==> sources@[j2].0@ != sources@[j].0@)
                    ==> #[trigger] spec_source_text(out@, sources@[j].0@) == Some(
                    sources@[j].1@,
                ),
        decreases n - t,
    {
        let path = sources[t].0.clone();
        let text = sources[t].1.clone();
        proof {
            assert((path, text) == sources@[t as int]);
        }
        insert_source(&mut out, path, text);
        proof {
            assert(sources@.contains(sources@[t as int]));
        }
        t = t + 1;
    }
    out
}

} // verus!
