//! Canonical semantic-version strings.
//!
//! Version numbers enter the core as caller-supplied text. They are
//! validated and normalized through the `semver` crate; everything stored
//! or compared afterwards is the canonical string form.

use vstd::prelude::*;

verus! {

/// What `semver::Version::parse` followed by `Display` yields for a given
/// text: `None` when the text is not a valid semantic version, otherwise
/// the canonical string form. The result depends on the text alone.
pub uninterp spec fn semver_canon(s: Seq<char>) -> Option<Seq<char>>;

/// Whether a text is a valid semantic version.
pub open spec fn semver_ok(s: Seq<char>) -> bool {
    semver_canon(s) is Some
}

/// The canonical string form of a valid semantic version text.
pub open spec fn canon_num(s: Seq<char>) -> Seq<char>
    recommends
        semver_ok(s),
{
    semver_canon(s)->0
}

/// Relies on `semver::Version::parse` and the `Display` form of the parsed
/// value: parsing is a pure function of the text and never panics, and
/// `Display` prints the canonical form of the version.
#[verifier::external_body]
pub(crate) fn parse_canonical(s: &str) -> (r: Option<String>)
    ensures
        r is Some <==> semver_ok(s@),
        r is Some ==> semver_canon(s@) == Some(r->0@),
{
    match semver::Version::parse(s) {
        Ok(v) => Some(v.to_string()),
        Err(_) => None,
    }
}

} // verus!
