//! Semantic-version parsing and ordering of release tags.
//!
//! Version strings are kept as strings; the `semver` crate decides, behind
//! the two trusted wrappers below, whether a string is a valid semantic
//! version and how two valid versions order. Tags may carry one leading
//! `v` marker, which is stripped before parsing.

use vstd::prelude::*;
use vstd::string::StrSliceExecFns;

verus! {

/// Whether `semver::Version::parse` accepts the string. The full grammar
/// (dotted numeric triple, optional pre-release and build metadata) is the
/// `semver` crate's; only acceptance is named here.
pub uninterp spec fn sv_ok(s: Seq<char>) -> bool;

/// Whether the version parsed from `a` orders strictly below the version
/// parsed from `b`, under `semver::Version`'s derived total order
/// (major, minor, patch, pre-release, build metadata). Meaningful only
/// where both strings satisfy `sv_ok`.
pub uninterp spec fn sv_lt(a: Seq<char>, b: Seq<char>) -> bool;

/// Relies on `semver::Version::parse`: acceptance of a string depends on
/// the string alone.
#[verifier::external_body]
pub(crate) fn semver_parses(s: &str) -> (r: bool)
    ensures
        r == sv_ok(s@),
{
    semver::Version::parse(s).is_ok()
}

/// Relies on `semver::Version::parse` and on `semver::Version`'s derived
/// `Ord`, which its documentation presents as a total order on versions:
/// the result depends on the two strings alone, the strict order is
/// asymmetric, and the reflexive order is transitive (third clause:
/// whatever is at least `a` is at least `b` once `a` is at least `b`).
#[verifier::external_body]
pub(crate) fn version_less(a: &str, b: &str) -> (r: bool)
    requires
        sv_ok(a@),
        sv_ok(b@),
    ensures
        r == sv_lt(a@, b@),
        r ==> !sv_lt(b@, a@),
        !r ==> forall|c: Seq<char>|
            #![trigger sv_lt(c, a@)]
            sv_ok(c) && !sv_lt(c, a@) ==> !sv_lt(c, b@),
{
    match (semver::Version::parse(a), semver::Version::parse(b)) {
        (Ok(va), Ok(vb)) => va < vb,
        _ => false,
    }
}

/// A tag with one leading `v` marker dropped; any other tag unchanged.
pub open spec fn stripped(t: Seq<char>) -> Seq<char> {
    if t.len() > 0 && t[0] == 'v' {
        t.subrange(1, t.len() as int)
    } else {
        t
    }
}

/// Drops one leading `v` from a tag, if present.
pub fn strip_tag_prefix(t: &str) -> (r: &str)
    ensures
        r@ == stripped(t@),
{
    let n = t.unicode_len();
    if n > 0 && t.get_char(0) == 'v' {
        t.substring_char(1, n)
    } else {
        t
    }
}

/// Whether a raw tag, after stripping, is a valid semantic version.
pub fn tag_parses(t: &str) -> (r: bool)
    ensures
        r == sv_ok(stripped(t@)),
{
    semver_parses(strip_tag_prefix(t))
}

} // verus!
