//! Deterministic transformation of a version record into its external
//! representation: canonical version string, timestamps in a fixed
//! textual form, and three derived link strings built from the crate
//! name and version string with a fixed path template.

use vstd::prelude::*;

use crate::record::{features_view, Version};

verus! {

/// Timestamps are encodable up to the end of year 9999, the last year
/// the textual form carries four digits for.
pub const MAX_ENCODABLE_TIME: i64 = 253402300800;

/// What the fixed textual form of a UTC timestamp is, for a given count
/// of seconds since the epoch. The text depends on the seconds alone.
pub uninterp spec fn rfc3339_of(t: i64) -> Seq<char>;

/// Relies on time's `OffsetDateTime::from_unix_timestamp` and its
/// RFC 3339 formatting: for a non-negative timestamp up to year 9999
/// both steps succeed, and the text is a pure function of the UTC
/// timestamp.
#[verifier::external_body]
pub(crate) fn encode_time(t: i64) -> (r: String)
    requires
        0 <= t < MAX_ENCODABLE_TIME,
    ensures
        r@ == rfc3339_of(t),
{
    match time::OffsetDateTime::from_unix_timestamp(t) {
        Ok(d) => match d.format(&time::format_description::well_known::Rfc3339) {
            Ok(s) => s,
            Err(_) => String::new(),
        },
        Err(_) => String::new(),
    }
}

/// Relies on `String::push_str`: appends the text's characters.
#[verifier::external_body]
pub(crate) fn append_str(s: &mut String, t: &str)
    ensures
        final(s)@ == old(s)@ + t@,
{
    s.push_str(t);
}

/// The fixed path template every derived link is built from.
pub open spec fn api_path(name: Seq<char>, num: Seq<char>, tail: Seq<char>) -> Seq<char> {
    "/api/v1/crates/"@ + name + "/"@ + num + "/"@ + tail
}

/// Builds one derived link from the path template.
fn make_path(name: &str, num: &str, tail: &str) -> (r: String)
    ensures
        r@ == api_path(name@, num@, tail@),
{
    let mut s = String::new();
    append_str(&mut s, "/api/v1/crates/");
    append_str(&mut s, name);
    append_str(&mut s, "/");
    append_str(&mut s, num);
    append_str(&mut s, "/");
    append_str(&mut s, tail);
    proof {
        assert(s@ =~= api_path(name@, num@, tail@));
    }
    s
}

/// The wire record of one version.
#[derive(Debug)]
pub struct EncodableVersion {
    pub id: i32,
    pub krate: String,
    pub num: String,
    pub dl_path: String,
    pub updated_at: String,
    pub created_at: String,
    pub downloads: i32,
    pub features: Vec<(String, Vec<String>)>,
    pub yanked: bool,
    pub links: VersionLinks,
}

/// The derived link strings of one version.
#[derive(Debug)]
pub struct VersionLinks {
    pub dependencies: String,
    pub version_downloads: String,
    pub authors: String,
}

/// What the wire record of a version must hold, field by field, given
/// the version's data and its owning crate's name.
pub open spec fn encodes(
    e: EncodableVersion,
    id: i32,
    name: Seq<char>,
    num: Seq<char>,
    updated_at: i64,
    created_at: i64,
    downloads: i32,
    features: Seq<(Seq<char>, Seq<Seq<char>>)>,
    yanked: bool,
) -> bool {
    &&& e.id == id
    &&& e.krate@ == name
    &&& e.num@ == num
    &&& e.dl_path@ == api_path(name, num, "download"@)
    &&& e.updated_at@ == rfc3339_of(updated_at)
    &&& e.created_at@ == rfc3339_of(created_at)
    &&& e.downloads == downloads
    &&& features_view(e.features) == features
    &&& e.yanked == yanked
    &&& e.links.dependencies@ == api_path(name, num, "dependencies"@)
    &&& e.links.version_downloads@ == api_path(name, num, "downloads"@)
    &&& e.links.authors@ == api_path(name, num, "authors"@)
}

impl Version {
    /// Pure, side-effect-free transform of this version into its wire
    /// record under its owning crate's name.
    pub fn encodable(self, crate_name: &str) -> (e: EncodableVersion)
        requires
            0 <= self.updated_at < MAX_ENCODABLE_TIME,
            0 <= self.created_at < MAX_ENCODABLE_TIME,
        ensures
            encodes(
                e,
                self.id,
                crate_name@,
                self.num@,
                self.updated_at,
                self.created_at,
                self.downloads,
                features_view(self.features),
                self.yanked,
            ),
    {
        let dl_path = make_path(crate_name, self.num.as_str(), "download");
        let links = VersionLinks {
            dependencies: make_path(crate_name, self.num.as_str(), "dependencies"),
            version_downloads: make_path(crate_name, self.num.as_str(), "downloads"),
            authors: make_path(crate_name, self.num.as_str(), "authors"),
        };
        EncodableVersion {
            id: self.id,
            krate: crate_name.to_owned(),
            num: self.num,
            dl_path,
            updated_at: encode_time(self.updated_at),
            created_at: encode_time(self.created_at),
            downloads: self.downloads,
            features: self.features,
            yanked: self.yanked,
            links,
        }
    }
}

/// Injectivity of the derived links: under one crate name, two versions
/// with different version strings never collide on a derived link.
pub proof fn lemma_links_injective(
    name: Seq<char>,
    num1: Seq<char>,
    num2: Seq<char>,
    tail: Seq<char>,
)
    requires
        num1 != num2,
    ensures
        api_path(name, num1, tail) != api_path(name, num2, tail),
{
    let p = "/api/v1/crates/"@ + name + "/"@;
    let a = api_path(name, num1, tail);
    let b = api_path(name, num2, tail);
    assert(a =~= p + num1 + ("/"@ + tail));
    assert(b =~= p + num2 + ("/"@ + tail));
    if a == b {
        assert(num1.len() == num2.len());
        assert forall|k: int| 0 <= k < num1.len() implies num1[k] == num2[k] by {
            assert(a[p.len() + k] == num1[k]);
            assert(b[p.len() + k] == num2[k]);
        }
        assert(num1 =~= num2);
        assert(false);
    }
}

} // verus!
