//! Bytecode matching: locating the metadata-hash suffix and grading a
//! comparison between compiled and deployed bytecode.
//!
//! Some compilers append a trailing metadata section to the runtime
//! bytecode. Its last two bytes encode the section's length in big-endian,
//! so the section spans the last `length + 2` bytes. Two builds of the
//! same source may differ only inside that section, which is why a
//! comparison that ignores it still counts as a (partial) match.

use vstd::prelude::*;

verus! {

/// Grade of a bytecode comparison: `Full` when compiled and deployed
/// bytecode are byte-identical, `Partial` when they agree everywhere
/// outside the compiled bytecode's trailing metadata-hash section.
#[derive(Clone, Copy, Debug, PartialEq, Eq, Structural)]
pub enum MatchResult {
    Full,
    Partial,
}

/// Length of the trailing metadata section of `code`, including the two
/// trailing length bytes, or `None` when the final two bytes do not
/// describe a section that fits inside `code`.
pub open spec fn spec_metadata_length(code: Seq<u8>) -> Option<int> {
    if code.len() >= 2 {
        let declared = (code[code.len() - 2] as int) * 256 + (code[code.len() - 1] as int);
        if declared + 2 <= code.len() {
            Some(declared + 2)
        } else {
            None
        }
    } else {
        None
    }
}

/// Compiled and deployed bytecode agree everywhere outside the compiled
/// bytecode's metadata section (and have the same length).
pub open spec fn spec_matches_partial(compiled: Seq<u8>, deployed: Seq<u8>) -> bool {
    match spec_metadata_length(compiled) {
        Some(meta) => {
            &&& deployed.len() == compiled.len()
            &&& compiled.take(compiled.len() - meta) == deployed.take(compiled.len() - meta)
        },
        None => false,
    }
}

/// Grade of comparing `compiled` against `deployed`: `Full` when
/// byte-identical, else `Partial` when they differ only inside the
/// metadata section, else no match.
pub open spec fn spec_match_grade(compiled: Seq<u8>, deployed: Seq<u8>) -> Option<MatchResult> {
    if compiled == deployed {
        Some(MatchResult::Full)
    } else if spec_matches_partial(compiled, deployed) {
        Some(MatchResult::Partial)
    } else {
        None
    }
}

/// Constructor-argument remainder: when `creation` extends bytecode that
/// matches the compiled creation bytecode (at either grade), the bytes
/// beyond the compiled length are ABI-encoded constructor arguments.
pub open spec fn spec_constructor_args(compiled: Seq<u8>, creation: Seq<u8>) -> Option<Seq<u8>> {
    if creation.len() >= compiled.len() && spec_match_grade(
        compiled,
        creation.take(compiled.len() as int),
    ) is Some {
        Some(creation.skip(compiled.len() as int))
    } else {
        None
    }
}

/// Locates the metadata section of `code` deterministically from its two
/// trailing length bytes.
pub fn metadata_length(code: &[u8]) -> (r: Option<usize>)
    ensures
        match spec_metadata_length(code@) {
            Some(m) => r == Some(m as usize),
            None => r is None,
        },
{
    let n = code.len();
    if n >= 2 {
        let declared: usize = (code[n - 2] as usize) * 256 + (code[n - 1] as usize);
        if declared + 2 <= n {
            Some(declared + 2)
        } else {
            None
        }
    } else {
        None
    }
}

/// The first `n` bytes of `a` and `b` are equal.
fn prefixes_equal(a: &[u8], b: &[u8], n: usize) -> (r: bool)
    requires
        n <= a@.len(),
        n <= b@.len(),
    ensures
        r == (a@.take(n as int) == b@.take(n as int)),
{
    let mut i: usize = 0;
    while i < n
        invariant
            i <= n,
            n <= a@.len(),
            n <= b@.len(),
            forall|j: int| 0 <= j < i ==> a@[j] == b@[j],
        decreases n - i,
    {
        if a[i] != b[i] {
            proof {
                assert(a@.take(n as int)[i as int] != b@.take(n as int)[i as int]);
            }
            return false;
        }
        i = i + 1;
    }
    proof {
        assert(a@.take(n as int) =~= b@.take(n as int));
    }
    true
}

/// The whole of `a` and `b` are equal.
fn bytes_equal(a: &[u8], b: &[u8]) -> (r: bool)
    ensures
        r == (a@ == b@),
{
    if a.len() != b.len() {
        proof {
            assert(a@.len() != b@.len());
        }
        return false;
    }
    let r = prefixes_equal(a, b, a.len());
    proof {
        assert(a@.take(a@.len() as int) =~= a@);
        assert(b@.take(b@.len() as int) =~= b@);
    }
    r
}

/// Grades `compiled` against `deployed`: byte-identical gives `Full`;
/// equality outside the metadata section of `compiled` gives `Partial`.
pub fn match_bytecode(compiled: &[u8], deployed: &[u8]) -> (r: Option<MatchResult>)
    ensures
        r == spec_match_grade(compiled@, deployed@),
{
    if bytes_equal(compiled, deployed) {
        return Some(MatchResult::Full);
    }
    if compiled.len() != deployed.len() {
        return None;
    }
    match metadata_length(compiled) {
        Some(meta) => {
            if prefixes_equal(compiled, deployed, compiled.len() - meta) {
                Some(MatchResult::Partial)
            } else {
                None
            }
        },
        None => None,
    }
}

/// Splits `creation` into the part matched against the compiled creation
/// bytecode and the constructor-argument remainder beyond it.
pub fn constructor_arguments(compiled: &[u8], creation: &[u8]) -> (r: Option<Vec<u8>>)
    ensures
        match spec_constructor_args(compiled@, creation@) {
            Some(args) => r matches Some(v) && v@ == args,
            None => r is None,
        },
{
    let n = compiled.len();
    if creation.len() < n {
        return None;
    }
    let head = vstd::slice::slice_subrange(creation, 0, n);
    if match_bytecode(compiled, head).is_some() {
        let tail = vstd::slice::slice_subrange(creation, n, creation.len());
        let args = vstd::slice::slice_to_vec(tail);
        proof {
            assert(creation@.subrange(n as int, creation@.len() as int) =~= creation@.skip(
                n as int,
            ));
            assert(creation@.subrange(0, n as int) =~= creation@.take(n as int));
        }
        Some(args)
    } else {
        proof {
            assert(creation@.subrange(0, n as int) =~= creation@.take(n as int));
        }
        None
    }
}

/// Byte-identical bytecode always grades as a `Full` match.
pub proof fn lemma_identical_is_full_match(code: Seq<u8>)
    ensures
        spec_match_grade(code, code) == Some(MatchResult::Full),
{
}

/// Bytecode that differs from the compiled bytecode, but only inside the
/// metadata-hash section, always grades as a `Partial` match.
pub proof fn lemma_metadata_difference_is_partial_match(compiled: Seq<u8>, deployed: Seq<u8>)
    requires
        compiled != deployed,
        spec_matches_partial(compiled, deployed),
    ensures
        spec_match_grade(compiled, deployed) == Some(MatchResult::Partial),
{
}

/// Creation bytecode that extends the compiled creation bytecode by some
/// trailing bytes, with no other difference, yields exactly those bytes
/// as the constructor-argument remainder.
pub proof fn lemma_trailing_bytes_are_constructor_args(compiled: Seq<u8>, args: Seq<u8>)
    ensures
        spec_constructor_args(compiled, compiled + args) == Some(args),
{
    let creation = compiled + args;
    assert(creation.take(compiled.len() as int) =~= compiled);
    assert(creation.skip(compiled.len() as int) =~= args);
}

} // verus!
