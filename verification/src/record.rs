//! The record types of the version-management core.
//!
//! Rows mirror the relational tables: `VersionRow` is a raw `versions`
//! row as the store keeps it (its feature mapping may be absent, as a
//! nullable column is), while `Version` is the decoded form every caller
//! works with. The remaining records model the tables this core owns
//! (`Dependency`, `AuthorRow`) and the collaborator-owned data it reads
//! (`CrateRow`, `User`, `VersionDownload`).

use vstd::prelude::*;

verus! {

/// One decoded published version of a crate.
#[derive(Debug, PartialEq)]
pub struct Version {
    pub id: i32,
    pub crate_id: i32,
    /// Canonical semantic-version string.
    pub num: String,
    pub updated_at: i64,
    pub created_at: i64,
    pub downloads: i32,
    /// Feature name to ordered list of enabled sub-features.
    pub features: Vec<(String, Vec<String>)>,
    pub yanked: bool,
}

/// A raw `versions` row: the feature mapping is a nullable column.
#[derive(Debug)]
pub struct VersionRow {
    pub id: i32,
    pub crate_id: i32,
    pub num: String,
    pub updated_at: i64,
    pub created_at: i64,
    pub downloads: i32,
    pub features: Option<Vec<(String, Vec<String>)>>,
    pub yanked: bool,
}

/// One author attribution of a version: either a registered user or a
/// free-text name with no backing identity.
#[derive(Debug, PartialEq)]
pub enum VersionAuthor {
    AuthorUser(User),
    AuthorName(String),
}

/// A raw `version_authors` row.
#[derive(Debug)]
pub struct AuthorRow {
    pub version_id: i32,
    pub user_id: Option<i32>,
    pub name: String,
}

/// One dependency edge from a version to a crate.
#[derive(Debug, PartialEq)]
pub struct Dependency {
    pub id: i32,
    pub version_id: i32,
    pub crate_id: i32,
    /// The version-requirement string, kept as supplied.
    pub req: String,
    pub optional: bool,
    pub default_features: bool,
    pub features: Vec<String>,
}

/// A caller-supplied dependency specification, as an upload hands it in.
#[derive(Debug)]
pub struct CrateDependency {
    pub name: String,
    pub version_req: String,
    pub optional: bool,
    pub default_features: bool,
    pub features: Vec<String>,
}

/// A crate as the external crate collaborator shows it: its identity,
/// name, and the set of user ids authorized to mutate its publication
/// state.
#[derive(Debug, PartialEq)]
pub struct CrateRow {
    pub id: i32,
    pub name: String,
    pub owners: Vec<i32>,
}

/// A registered user as the external user collaborator shows it.
#[derive(Debug, PartialEq)]
pub struct User {
    pub id: i32,
    pub login: String,
}

/// One per-day download count, owned by the external aggregator.
#[derive(Clone, Copy, PartialEq, Eq, Structural, Debug)]
pub struct VersionDownload {
    pub version_id: i32,
    pub date: i64,
    pub downloads: i32,
}

/// One intended mutation of the git-backed index: set the yanked flag of
/// (crate name, version) to `yanked`. Recorded transactionally in the
/// store's outbox; an external synchronizer applies it with idempotent
/// retries.
#[derive(Debug)]
pub struct IndexEntry {
    pub krate: String,
    pub num: String,
    pub yanked: bool,
}

/// The mathematical value of a feature mapping: each pair is a feature
/// name and its list of enabled sub-features.
pub open spec fn features_view(f: Vec<(String, Vec<String>)>) -> Seq<(Seq<char>, Seq<Seq<char>>)> {
    f.deep_view()
}

/// What a nullable stored feature column decodes to: an absent column
/// decodes to the empty mapping, never to an error.
pub open spec fn decoded_features(f: Option<Vec<(String, Vec<String>)>>) -> Seq<
    (Seq<char>, Seq<Seq<char>>),
> {
    match f {
        Some(v) => features_view(v),
        None => Seq::empty(),
    }
}

/// How a raw row and its decoded version relate, field by field.
pub open spec fn row_decodes_to(row: VersionRow, v: Version) -> bool {
    &&& v.id == row.id
    &&& v.crate_id == row.crate_id
    &&& v.num@ == row.num@
    &&& v.updated_at == row.updated_at
    &&& v.created_at == row.created_at
    &&& v.downloads == row.downloads
    &&& features_view(v.features) == decoded_features(row.features)
    &&& v.yanked == row.yanked
}

/// Two dependency records carry the same data.
pub open spec fn dep_eq(a: Dependency, b: Dependency) -> bool {
    &&& a.id == b.id
    &&& a.version_id == b.version_id
    &&& a.crate_id == b.crate_id
    &&& a.req@ == b.req@
    &&& a.optional == b.optional
    &&& a.default_features == b.default_features
    &&& a.features.deep_view() == b.features.deep_view()
}

/// Deep copy of a feature mapping; the copy has the same mathematical
/// value.
pub(crate) fn clone_features(f: &Vec<(String, Vec<String>)>) -> (r: Vec<(String, Vec<String>)>)
    ensures
        features_view(r) == features_view(*f),
{
    broadcast use vstd::std_specs::vec::vec_clone_deep_view_proof;

    let mut r: Vec<(String, Vec<String>)> = Vec::new();
    let mut i: usize = 0;
    while i < f.len()
        invariant
            i <= f.len(),
            r.deep_view() =~~= f.deep_view().subrange(0, i as int),
        decreases f.len() - i,
    {
        let name = f[i].0.clone();
        let subs = f[i].1.clone();
        proof {
            assert(subs.deep_view() =~~= f@[i as int].1.deep_view());
        }
        r.push((name, subs));
        proof {
            assert(r.deep_view() =~~= f.deep_view().subrange(0, i + 1 as int));
        }
        i = i + 1;
    }
    proof {
        assert(f.deep_view().subrange(0, f.len() as int) =~~= f.deep_view());
    }
    r
}

/// Deep copy of a list of strings; the copy has the same mathematical
/// value.
pub(crate) fn clone_strings(f: &Vec<String>) -> (r: Vec<String>)
    ensures
        r.deep_view() == f.deep_view(),
        r@ =~= f@,
{
    let mut r: Vec<String> = Vec::new();
    let mut i: usize = 0;
    while i < f.len()
        invariant
            i <= f.len(),
            r@ =~= f@.subrange(0, i as int),
        decreases f.len() - i,
    {
        r.push(f[i].clone());
        proof {
            assert(r@ =~= f@.subrange(0, i + 1 as int));
        }
        i = i + 1;
    }
    proof {
        assert(f@.subrange(0, f.len() as int) =~= f@);
        assert(r.deep_view() =~~= f.deep_view());
    }
    r
}

} // verus!
