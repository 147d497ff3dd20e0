//! The transport-agnostic operation surface: list versions by id set,
//! show one version, list dependencies, downloads and authors, and the
//! yank state machine. Each operation takes the store explicitly; the
//! surrounding transport layer parses requests into the plain values
//! these functions take and renders what they return.

use vstd::prelude::*;

use crate::encode::{encodes, EncodableVersion};
use crate::error::CargoError;
use crate::num::{canon_num, semver_ok};
use crate::record::{
    decoded_features, row_decodes_to, AuthorRow, CrateRow, Dependency, IndexEntry, User, Version,
    VersionAuthor, VersionDownload, VersionRow,
};
use crate::store::{
    crate_idx_by_name, outbox_view, user_idx_by_id, version_idx_by_id, version_idx_by_num,
    Store,
};
use crate::version::{
    author_rows_of, authors_match, authors_resolve, crate_name_of, copy_ids, dep_pairs_match,
    deps_pairs,
};

verus! {

/// The wire record of one per-day download count.
#[derive(Clone, Copy, PartialEq, Eq, Structural, Debug)]
pub struct EncodableVersionDownload {
    pub version: i32,
    pub date: i64,
    pub downloads: i32,
}

/// How a version is addressed by a caller of [`show`]: by the pair of
/// crate name and version string, or by its raw id.
pub enum ShowTarget {
    ByNum { krate: String, num: String },
    ById { id: i32 },
}

/// The version rows whose ids are listed, in storage order.
pub open spec fn listed_versions(rows: Seq<VersionRow>, ids: Seq<i32>) -> Seq<VersionRow>
    decreases rows.len(),
{
    if rows.len() == 0 {
        Seq::empty()
    } else {
        let prefix = listed_versions(rows.drop_last(), ids);
        if ids.contains(rows.last().id) {
            prefix.push(rows.last())
        } else {
            prefix
        }
    }
}

/// The download rows of a version after the cutoff date, in storage
/// order, shaped for the wire.
pub open spec fn recent_downloads(ds: Seq<VersionDownload>, vid: i32, cutoff: int) -> Seq<
    EncodableVersionDownload,
>
    decreases ds.len(),
{
    if ds.len() == 0 {
        Seq::empty()
    } else {
        let prefix = recent_downloads(ds.drop_last(), vid, cutoff);
        let d = ds.last();
        if d.version_id == vid && d.date > cutoff {
            prefix.push(
                EncodableVersionDownload { version: d.version_id, date: d.date, downloads: d.downloads },
            )
        } else {
            prefix
        }
    }
}

/// The registered-user authors among a version's author rows, as
/// (user id, login) pairs, in storage order.
pub open spec fn split_users_of(rows: Seq<AuthorRow>, users: Seq<User>) -> Seq<(i32, Seq<char>)>
    decreases rows.len(),
{
    if rows.len() == 0 {
        Seq::empty()
    } else {
        let prefix = split_users_of(rows.drop_last(), users);
        match rows.last().user_id {
            Some(u) => prefix.push((u, users[user_idx_by_id(users, u, 0)].login@)),
            None => prefix,
        }
    }
}

/// The free-text authors among a version's author rows, in storage
/// order.
pub open spec fn split_names_of(rows: Seq<AuthorRow>) -> Seq<Seq<char>>
    decreases rows.len(),
{
    if rows.len() == 0 {
        Seq::empty()
    } else {
        let prefix = split_names_of(rows.drop_last());
        match rows.last().user_id {
            Some(_) => prefix,
            None => prefix.push(rows.last().name@),
        }
    }
}

/// One step of the yank state machine over the version table and the
/// outbox: when the row is already in the target state nothing is
/// written; otherwise the flag is flipped and one index mutation is
/// recorded.
pub open spec fn yank_step(
    rows: Seq<VersionRow>,
    ob: Seq<(Seq<char>, Seq<char>, bool)>,
    k: int,
    name: Seq<char>,
    target: bool,
) -> (Seq<VersionRow>, Seq<(Seq<char>, Seq<char>, bool)>)
    recommends
        0 <= k < rows.len(),
{
    if rows[k].yanked == target {
        (rows, ob)
    } else {
        (
            rows.update(k, VersionRow { yanked: target, ..rows[k] }),
            ob.push((name, rows[k].num@, target)),
        )
    }
}

/// Yank idempotence: one transition performs at most one relational
/// write and records at most one index mutation, and repeating the same
/// transition is a no-op.
pub proof fn lemma_yank_idempotent(
    rows: Seq<VersionRow>,
    ob: Seq<(Seq<char>, Seq<char>, bool)>,
    k: int,
    name: Seq<char>,
    target: bool,
)
    requires
        0 <= k < rows.len(),
    ensures
        ({
            let step1 = yank_step(rows, ob, k, name, target);
            let step2 = yank_step(step1.0, step1.1, k, name, target);
            &&& step2.0 == step1.0
            &&& step2.1 == step1.1
            &&& step1.1.len() <= ob.len() + 1
        }),
{
    let step1 = yank_step(rows, ob, k, name, target);
    assert(step1.0[k].yanked == target);
}

/// The first match of a (crate id, version string) key is unmoved by
/// overwriting one row with a row carrying the same key.
proof fn lemma_version_idx_by_num_update_same_key(
    rows: Seq<VersionRow>,
    k: int,
    row: VersionRow,
    crate_id: i32,
    num: Seq<char>,
    i: int,
)
    requires
        0 <= k < rows.len(),
        row.crate_id == rows[k].crate_id,
        row.num@ == rows[k].num@,
        0 <= i,
    ensures
        version_idx_by_num(rows.update(k, row), crate_id, num, i) == version_idx_by_num(
            rows,
            crate_id,
            num,
            i,
        ),
    decreases rows.len() - i,
{
    let upd = rows.update(k, row);
    if i < rows.len() {
        if i != k {
            assert(upd[i] == rows[i]);
        }
        if !(rows[i].crate_id == crate_id && rows[i].num@ == num) {
            lemma_version_idx_by_num_update_same_key(rows, k, row, crate_id, num, i + 1);
        }
    }
}

/// Yank idempotence at the operation level: after a successful yank or
/// unyank, repeating the identical call changes nothing — over the two
/// calls at most one relational row is written and at most one index
/// mutation is recorded.
pub proof fn lemma_modify_yank_twice(
    pre: Store,
    mid: Store,
    post: Store,
    r1: Result<bool, CargoError>,
    r2: Result<bool, CargoError>,
    name: Seq<char>,
    num: Seq<char>,
    user_id: i32,
    target: bool,
)
    requires
        semver_ok(num),
        crate_idx_by_name(pre.crates@, name, 0) >= 0,
        version_idx_by_num(
            pre.versions@,
            pre.crates@[crate_idx_by_name(pre.crates@, name, 0)].id,
            canon_num(num),
            0,
        ) >= 0,
        pre.crates@[crate_idx_by_name(pre.crates@, name, 0)].owners@.contains(user_id),
        modify_yank_post(pre, mid, r1, name, num, user_id, target),
        modify_yank_post(mid, post, r2, name, num, user_id, target),
    ensures
        post.versions@ == mid.versions@,
        outbox_view(post.outbox@) == outbox_view(mid.outbox@),
        outbox_view(mid.outbox@).len() <= outbox_view(pre.outbox@).len() + 1,
{
    let ck = crate_idx_by_name(pre.crates@, name, 0);
    let cid = pre.crates@[ck].id;
    let vk = version_idx_by_num(pre.versions@, cid, canon_num(num), 0);
    crate::store::lemma_version_idx_by_num_found(pre.versions@, cid, canon_num(num), 0);
    let step = yank_step(pre.versions@, outbox_view(pre.outbox@), vk, pre.crates@[ck].name@, target);
    assert(mid.versions@ == step.0);
    if pre.versions@[vk].yanked != target {
        let row = VersionRow { yanked: target, ..pre.versions@[vk] };
        lemma_version_idx_by_num_update_same_key(pre.versions@, vk, row, cid, canon_num(num), 0);
    }
    assert(version_idx_by_num(mid.versions@, cid, canon_num(num), 0) == vk);
    assert(mid.versions@[vk].yanked == target);
    let step2 = yank_step(
        mid.versions@,
        outbox_view(mid.outbox@),
        vk,
        mid.crates@[ck].name@,
        target,
    );
    assert(step2.0 == mid.versions@ && step2.1 == outbox_view(mid.outbox@));
}

/// What a yank or unyank call leaves behind, for every input: the error
/// cases leave the store untouched, and an authorized transition on an
/// existing version performs exactly one [`yank_step`].
pub open spec fn modify_yank_post(
    pre: Store,
    post: Store,
    r: Result<bool, CargoError>,
    name: Seq<char>,
    num: Seq<char>,
    user_id: i32,
    target: bool,
) -> bool {
    let ck = crate_idx_by_name(pre.crates@, name, 0);
    let vk = if semver_ok(num) && ck >= 0 {
        version_idx_by_num(pre.versions@, pre.crates@[ck].id, canon_num(num), 0)
    } else {
        -1
    };
    &&& (!semver_ok(num) ==> r is Err && r->Err_0 is InvalidSemver
        && r->Err_0->InvalidSemver_num@ == num && post == pre)
    &&& (semver_ok(num) && ck == -1 ==> r is Err && r->Err_0 is CrateNotFound
        && r->Err_0->CrateNotFound_name@ == name && post == pre)
    &&& (semver_ok(num) && ck >= 0 && vk == -1 ==> r is Err && r->Err_0 is VersionNotFound
        && r->Err_0->VersionNotFound_krate@ == name && r->Err_0->VersionNotFound_num@ == num
        && post == pre)
    &&& (semver_ok(num) && ck >= 0 && vk >= 0 && !pre.crates@[ck].owners@.contains(user_id)
        ==> r == Err::<bool, CargoError>(CargoError::Unauthorized) && post == pre)
    &&& (semver_ok(num) && ck >= 0 && vk >= 0 && pre.crates@[ck].owners@.contains(user_id) ==> ({
        let step = yank_step(
            pre.versions@,
            outbox_view(pre.outbox@),
            vk,
            pre.crates@[ck].name@,
            target,
        );
        &&& r == Ok::<bool, CargoError>(true)
        &&& post.versions@ == step.0
        &&& outbox_view(post.outbox@) == step.1
        &&& post.dependencies@ == pre.dependencies@
        &&& post.authors@ == pre.authors@
        &&& post.crates@ == pre.crates@
        &&& post.users@ == pre.users@
        &&& post.downloads@ == pre.downloads@
        &&& post.next_version_id == pre.next_version_id
        &&& post.next_dep_id == pre.next_dep_id
        &&& post.next_crate_id == pre.next_crate_id
    }))
}

/// Whether a list of owner ids contains this id.
fn contains_id(v: &Vec<i32>, x: i32) -> (b: bool)
    ensures
        b == v@.contains(x),
{
    let mut i: usize = 0;
    while i < v.len()
        invariant
            i <= v.len(),
            forall|j: int| 0 <= j < i ==> v@[j] != x,
        decreases v.len() - i,
    {
        if v[i] == x {
            return true;
        }
        i = i + 1;
    }
    false
}

/// Resolves (crate name, version string) to the version and its crate:
/// the version string must parse, the crate must exist, and the crate
/// must have that version.
fn version_and_crate(store: &Store, crate_name: &str, num: &str) -> (r: Result<
    (Version, CrateRow),
    CargoError,
>)
    requires
        store.wf(),
    ensures
        ({
            let ck = crate_idx_by_name(store.crates@, crate_name@, 0);
            let vk = if semver_ok(num@) && ck >= 0 {
                version_idx_by_num(store.versions@, store.crates@[ck].id, canon_num(num@), 0)
            } else {
                -1
            };
            &&& (!semver_ok(num@) ==> r is Err && r->Err_0 is InvalidSemver
                && r->Err_0->InvalidSemver_num@ == num@)
            &&& (semver_ok(num@) && ck == -1 ==> r is Err && r->Err_0 is CrateNotFound
                && r->Err_0->CrateNotFound_name@ == crate_name@)
            &&& (semver_ok(num@) && ck >= 0 && vk == -1 ==> r is Err
                && r->Err_0 is VersionNotFound && r->Err_0->VersionNotFound_krate@ == crate_name@
                && r->Err_0->VersionNotFound_num@ == num@)
            &&& (r is Ok ==> semver_ok(num@) && ck >= 0 && vk >= 0)
            &&& (semver_ok(num@) && ck >= 0 && vk >= 0 ==> {
                &&& r is Ok
                &&& row_decodes_to(store.versions@[vk], r->Ok_0.0)
                &&& r->Ok_0.1.id == store.crates@[ck].id
                &&& r->Ok_0.1.name@ == store.crates@[ck].name@
                &&& r->Ok_0.1.owners@ == store.crates@[ck].owners@
            })
        }),
{
    let canon = match crate::num::parse_canonical(num) {
        Some(c) => c,
        None => {
            return Err(CargoError::InvalidSemver { num: num.to_owned() });
        },
    };
    let name_s = crate_name.to_owned();
    let ck = match crate::version::find_crate_pos_by_name(&store.crates, &name_s) {
        Some(k) => k,
        None => {
            return Err(CargoError::CrateNotFound { name: name_s });
        },
    };
    let crate_id = store.crates[ck].id;
    let vk = match crate::version::find_version_pos_by_num(&store.versions, crate_id, &canon) {
        Some(k) => k,
        None => {
            return Err(
                CargoError::VersionNotFound { krate: name_s, num: num.to_owned() },
            );
        },
    };
    let version = Version::from_row(&store.versions[vk]);
    let krate = CrateRow {
        id: crate_id,
        name: store.crates[ck].name.clone(),
        owners: copy_ids(&store.crates[ck].owners),
    };
    Ok((version, krate))
}

/// Lists the versions whose ids are given, in storage order, shaped for
/// the wire. An empty id set yields an empty list without touching the
/// store at all.
pub fn index(store: &Store, ids: &Vec<i32>) -> (r: Vec<EncodableVersion>)
    requires
        store.wf(),
    ensures
        ({
            let l = listed_versions(store.versions@, ids@);
            &&& r@.len() == l.len()
            &&& forall|j: int|
                0 <= j < l.len() ==> encodes(
                    #[trigger] r@[j],
                    l[j].id,
                    crate_name_of(store.crates@, l[j].crate_id),
                    l[j].num@,
                    l[j].updated_at,
                    l[j].created_at,
                    l[j].downloads,
                    decoded_features(l[j].features),
                    l[j].yanked,
                )
        }),
        ids@.len() == 0 ==> r@.len() == 0,
{
    let mut out: Vec<EncodableVersion> = Vec::new();
    if ids.len() == 0 {
        proof {
            lemma_listed_versions_empty_ids(store.versions@, ids@);
        }
        return out;
    }
    let rows = &store.versions;
    let mut i: usize = 0;
    while i < rows.len()
        invariant
            store.wf(),
            rows == &store.versions,
            i <= rows.len(),
            ({
                let l = listed_versions(rows@.subrange(0, i as int), ids@);
                &&& out@.len() == l.len()
                &&& forall|j: int|
                    0 <= j < l.len() ==> encodes(
                        #[trigger] out@[j],
                        l[j].id,
                        crate_name_of(store.crates@, l[j].crate_id),
                        l[j].num@,
                        l[j].updated_at,
                        l[j].created_at,
                        l[j].downloads,
                        decoded_features(l[j].features),
                        l[j].yanked,
                    )
            }),
        decreases rows.len() - i,
    {
        proof {
            let sub0 = rows@.subrange(0, i as int);
            let sub1 = rows@.subrange(0, i + 1 as int);
            assert(sub1.drop_last() =~= sub0);
            assert(sub1.last() == rows@[i as int]);
            if ids@.contains(rows@[i as int].id) {
                assert(listed_versions(sub1, ids@) == listed_versions(sub0, ids@).push(
                    rows@[i as int],
                ));
            } else {
                assert(listed_versions(sub1, ids@) == listed_versions(sub0, ids@));
            }
        }
        if contains_id(ids, rows[i].id) {
            let k = match crate::version::find_crate_pos_by_id(&store.crates, rows[i].crate_id) {
                Some(k) => k,
                None => {
                    proof {
                        assert(false);
                    }
                    return out;
                },
            };
            let v = Version::from_row(&rows[i]);
            out.push(v.encodable(store.crates[k].name.as_str()));
        }
        i = i + 1;
    }
    proof {
        assert(rows@.subrange(0, rows@.len() as int) =~= rows@);
    }
    out
}

/// An empty id set lists nothing.
proof fn lemma_listed_versions_empty_ids(rows: Seq<VersionRow>, ids: Seq<i32>)
    requires
        ids.len() == 0,
    ensures
        listed_versions(rows, ids).len() == 0,
    decreases rows.len(),
{
    if rows.len() > 0 {
        lemma_listed_versions_empty_ids(rows.drop_last(), ids);
    }
}

/// Shows one version, addressed by (crate name, version string) or by
/// raw id, shaped for the wire.
pub fn show(store: &Store, target: &ShowTarget) -> (r: Result<EncodableVersion, CargoError>)
    requires
        store.wf(),
    ensures
        (*target) matches ShowTarget::ById { id } ==> ({
            let k = version_idx_by_id(store.versions@, id, 0);
            &&& (k == -1 ==> r is Err && r->Err_0 == (CargoError::VersionIdNotFound { id }))
            &&& (k >= 0 ==> {
                let row = store.versions@[k];
                &&& r is Ok
                &&& encodes(
                    r->Ok_0,
                    row.id,
                    crate_name_of(store.crates@, row.crate_id),
                    row.num@,
                    row.updated_at,
                    row.created_at,
                    row.downloads,
                    decoded_features(row.features),
                    row.yanked,
                )
            })
        }),
        (*target) matches ShowTarget::ByNum { krate, num } ==> ({
            let ck = crate_idx_by_name(store.crates@, krate@, 0);
            let vk = if semver_ok(num@) && ck >= 0 {
                version_idx_by_num(store.versions@, store.crates@[ck].id, canon_num(num@), 0)
            } else {
                -1
            };
            &&& (!semver_ok(num@) ==> r is Err && r->Err_0 is InvalidSemver)
            &&& (semver_ok(num@) && ck == -1 ==> r is Err && r->Err_0 is CrateNotFound)
            &&& (semver_ok(num@) && ck >= 0 && vk == -1 ==> r is Err
                && r->Err_0 is VersionNotFound)
            &&& (semver_ok(num@) && ck >= 0 && vk >= 0 ==> {
                let row = store.versions@[vk];
                &&& r is Ok
                &&& encodes(
                    r->Ok_0,
                    row.id,
                    store.crates@[ck].name@,
                    row.num@,
                    row.updated_at,
                    row.created_at,
                    row.downloads,
                    decoded_features(row.features),
                    row.yanked,
                )
            })
        }),
{
    match target {
        ShowTarget::ByNum { krate, num } => {
            let (version, found) = match version_and_crate(store, krate.as_str(), num.as_str()) {
                Ok(p) => p,
                Err(e) => {
                    return Err(e);
                },
            };
            proof {
                let ck = crate_idx_by_name(store.crates@, krate@, 0);
                crate::store::lemma_version_idx_by_num_found(
                    store.versions@,
                    store.crates@[ck].id,
                    canon_num(num@),
                    0,
                );
            }
            Ok(version.encodable(found.name.as_str()))
        },
        ShowTarget::ById { id } => {
            let version = match Version::find(store, *id) {
                Ok(v) => v,
                Err(e) => {
                    return Err(e);
                },
            };
            proof {
                crate::store::lemma_version_idx_by_id_found(store.versions@, *id, 0);
            }
            let k = match crate::version::find_crate_pos_by_id(&store.crates, version.crate_id) {
                Some(k) => k,
                None => {
                    proof {
                        assert(false);
                    }
                    return Err(CargoError::Internal);
                },
            };
            Ok(version.encodable(store.crates[k].name.as_str()))
        },
    }
}

/// Filtering a date-sorted download table keeps the result in ascending
/// date order.
proof fn lemma_recent_sorted(ds: Seq<VersionDownload>, vid: i32, cutoff: int)
    requires
        forall|i: int, j: int| 0 <= i < j < ds.len() ==> ds[i].date <= ds[j].date,
    ensures
        ({
            let r = recent_downloads(ds, vid, cutoff);
            &&& forall|i: int, j: int| 0 <= i < j < r.len() ==> r[i].date <= r[j].date
            &&& forall|i: int|
                0 <= i < r.len() ==> ds.len() > 0 && #[trigger] r[i].date <= ds.last().date
        }),
    decreases ds.len(),
{
    if ds.len() > 0 {
        let pre = ds.drop_last();
        assert forall|i: int, j: int| 0 <= i < j < pre.len() implies pre[i].date
            <= pre[j].date by {
            assert(pre[i] == ds[i] && pre[j] == ds[j]);
        }
        lemma_recent_sorted(pre, vid, cutoff);
        let pr = recent_downloads(pre, vid, cutoff);
        let r = recent_downloads(ds, vid, cutoff);
        if pre.len() > 0 {
            assert(pre.last() == ds[ds.len() - 2]);
            assert(pre.last().date <= ds.last().date);
        }
        assert forall|i: int| 0 <= i < r.len() implies ds.len() > 0 && #[trigger] r[i].date
            <= ds.last().date by {
            if i < pr.len() {
                assert(r[i] == pr[i]);
                assert(pr[i].date <= pre.last().date);
            }
        }
        assert forall|i: int, j: int| 0 <= i < j < r.len() implies r[i].date <= r[j].date by {
            if j < pr.len() {
            } else {
                assert(r[i] == pr[i]);
                assert(pr[i].date <= pre.last().date);
            }
        }
    }
}

/// Lists the dependencies of the version addressed by (crate name,
/// version string), each record carrying the name of the crate it
/// references.
pub fn dependencies(store: &Store, crate_name: &str, num: &str) -> (r: Result<
    Vec<(Dependency, String)>,
    CargoError,
>)
    requires
        store.wf(),
    ensures
        ({
            let ck = crate_idx_by_name(store.crates@, crate_name@, 0);
            let vk = if semver_ok(num@) && ck >= 0 {
                version_idx_by_num(store.versions@, store.crates@[ck].id, canon_num(num@), 0)
            } else {
                -1
            };
            &&& (r is Ok <==> semver_ok(num@) && ck >= 0 && vk >= 0)
            &&& (!semver_ok(num@) ==> r->Err_0 is InvalidSemver)
            &&& (semver_ok(num@) && ck == -1 ==> r->Err_0 is CrateNotFound)
            &&& (semver_ok(num@) && ck >= 0 && vk == -1 ==> r->Err_0 is VersionNotFound)
            &&& (r is Ok ==> dep_pairs_match(
                r->Ok_0@,
                deps_pairs(store.dependencies@, store.crates@, store.versions@[vk].id),
            ))
        }),
{
    let version = match version_and_crate(store, crate_name, num) {
        Ok(p) => p.0,
        Err(e) => {
            return Err(e);
        },
    };
    proof {
        let ck = crate_idx_by_name(store.crates@, crate_name@, 0);
        crate::store::lemma_version_idx_by_num_found(
            store.versions@,
            store.crates@[ck].id,
            canon_num(num@),
            0,
        );
    }
    version.dependencies(store)
}

/// Lists a version's per-day download counts inside the window of the
/// 90 days before `today`, in ascending date order.
pub fn downloads(store: &Store, crate_name: &str, num: &str, today: i64) -> (r: Result<
    Vec<EncodableVersionDownload>,
    CargoError,
>)
    requires
        store.wf(),
        i64::MIN + 90 <= today,
    ensures
        ({
            let ck = crate_idx_by_name(store.crates@, crate_name@, 0);
            let vk = if semver_ok(num@) && ck >= 0 {
                version_idx_by_num(store.versions@, store.crates@[ck].id, canon_num(num@), 0)
            } else {
                -1
            };
            &&& (r is Ok <==> semver_ok(num@) && ck >= 0 && vk >= 0)
            &&& (!semver_ok(num@) ==> r->Err_0 is InvalidSemver)
            &&& (semver_ok(num@) && ck == -1 ==> r->Err_0 is CrateNotFound)
            &&& (semver_ok(num@) && ck >= 0 && vk == -1 ==> r->Err_0 is VersionNotFound)
            &&& (r is Ok ==> {
                let l = recent_downloads(store.downloads@, store.versions@[vk].id, today - 90);
                &&& r->Ok_0@ == l
                &&& forall|i: int, j: int|
                    0 <= i < j < l.len() ==> l[i].date <= l[j].date
            })
        }),
{
    let version = match version_and_crate(store, crate_name, num) {
        Ok(p) => p.0,
        Err(e) => {
            return Err(e);
        },
    };
    proof {
        let ck = crate_idx_by_name(store.crates@, crate_name@, 0);
        crate::store::lemma_version_idx_by_num_found(
            store.versions@,
            store.crates@[ck].id,
            canon_num(num@),
            0,
        );
    }
    let cutoff: i64 = today - 90;
    let ds = &store.downloads;
    let mut out: Vec<EncodableVersionDownload> = Vec::new();
    let mut i: usize = 0;
    while i < ds.len()
        invariant
            store.wf(),
            ds == &store.downloads,
            i <= ds.len(),
            out@ =~= recent_downloads(ds@.subrange(0, i as int), version.id, cutoff as int),
        decreases ds.len() - i,
    {
        proof {
            let sub0 = ds@.subrange(0, i as int);
            let sub1 = ds@.subrange(0, i + 1 as int);
            assert(sub1.drop_last() =~= sub0);
            assert(sub1.last() == ds@[i as int]);
        }
        if ds[i].version_id == version.id && ds[i].date > cutoff {
            out.push(
                EncodableVersionDownload {
                    version: ds[i].version_id,
                    date: ds[i].date,
                    downloads: ds[i].downloads,
                },
            );
        }
        i = i + 1;
    }
    proof {
        assert(ds@.subrange(0, ds@.len() as int) =~= ds@);
        lemma_recent_sorted(ds@, version.id, cutoff as int);
    }
    Ok(out)
}

/// Lists a version's author attributions split into the registered
/// users and the free-text names, each list in storage order.
pub fn authors(store: &Store, crate_name: &str, num: &str) -> (r: Result<
    (Vec<User>, Vec<String>),
    CargoError,
>)
    requires
        store.wf(),
    ensures
        ({
            let ck = crate_idx_by_name(store.crates@, crate_name@, 0);
            let vk = if semver_ok(num@) && ck >= 0 {
                version_idx_by_num(store.versions@, store.crates@[ck].id, canon_num(num@), 0)
            } else {
                -1
            };
            &&& (!semver_ok(num@) ==> r is Err && r->Err_0 is InvalidSemver)
            &&& (semver_ok(num@) && ck == -1 ==> r is Err && r->Err_0 is CrateNotFound)
            &&& (semver_ok(num@) && ck >= 0 && vk == -1 ==> r is Err
                && r->Err_0 is VersionNotFound)
            &&& (semver_ok(num@) && ck >= 0 && vk >= 0 ==> {
                let vid = store.versions@[vk].id;
                let rows = author_rows_of(store.authors@, vid);
                &&& (r is Ok <==> authors_resolve(store.authors@, store.users@, vid))
                &&& (r is Err ==> r->Err_0 is UserNotFound)
                &&& (r is Ok ==> {
                    let us = split_users_of(rows, store.users@);
                    let ns = split_names_of(rows);
                    &&& r->Ok_0.0@.len() == us.len()
                    &&& forall|j: int|
                        0 <= j < us.len() ==> (#[trigger] r->Ok_0.0@[j]).id == us[j].0
                            && r->Ok_0.0@[j].login@ == us[j].1
                    &&& r->Ok_0.1@.len() == ns.len()
                    &&& forall|j: int| 0 <= j < ns.len() ==> (#[trigger] r->Ok_0.1@[j])@ == ns[j]
                })
            })
        }),
{
    let version = match version_and_crate(store, crate_name, num) {
        Ok(p) => p.0,
        Err(e) => {
            return Err(e);
        },
    };
    let l = match version.authors(store) {
        Ok(l) => l,
        Err(e) => {
            return Err(e);
        },
    };
    let ghost rows = author_rows_of(store.authors@, version.id);
    let mut users_out: Vec<User> = Vec::new();
    let mut names_out: Vec<String> = Vec::new();
    let mut j: usize = 0;
    while j < l.len()
        invariant
            l@.len() == rows.len(),
            authors_match(l@, rows, store.users@),
            j <= l@.len(),
            ({
                let us = split_users_of(rows.subrange(0, j as int), store.users@);
                let ns = split_names_of(rows.subrange(0, j as int));
                &&& users_out@.len() == us.len()
                &&& forall|m: int|
                    0 <= m < us.len() ==> (#[trigger] users_out@[m]).id == us[m].0
                        && users_out@[m].login@ == us[m].1
                &&& names_out@.len() == ns.len()
                &&& forall|m: int| 0 <= m < ns.len() ==> (#[trigger] names_out@[m])@ == ns[m]
            }),
        decreases l@.len() - j,
    {
        proof {
            let sub0 = rows.subrange(0, j as int);
            let sub1 = rows.subrange(0, j + 1 as int);
            assert(sub1.drop_last() =~= sub0);
            assert(sub1.last() == rows[j as int]);
        }
        match &l[j] {
            VersionAuthor::AuthorUser(u) => {
                users_out.push(User { id: u.id, login: u.login.clone() });
            },
            VersionAuthor::AuthorName(n) => {
                names_out.push(n.clone());
            },
        }
        j = j + 1;
    }
    proof {
        assert(rows.subrange(0, rows.len() as int) =~= rows);
    }
    Ok((users_out, names_out))
}

/// Marks a version as yanked: requires the acting identity to own the
/// crate, and is an idempotent no-op when the version is already yanked.
pub fn yank(store: &mut Store, crate_name: &str, num: &str, user_id: i32) -> (r: Result<
    bool,
    CargoError,
>)
    requires
        old(store).wf(),
    ensures
        final(store).wf(),
        modify_yank_post(*old(store), *final(store), r, crate_name@, num@, user_id, true),
{
    modify_yank(store, crate_name, num, user_id, true)
}

/// Clears a version's yanked flag: requires the acting identity to own
/// the crate, and is an idempotent no-op when the version is not yanked.
pub fn unyank(store: &mut Store, crate_name: &str, num: &str, user_id: i32) -> (r: Result<
    bool,
    CargoError,
>)
    requires
        old(store).wf(),
    ensures
        final(store).wf(),
        modify_yank_post(*old(store), *final(store), r, crate_name@, num@, user_id, false),
{
    modify_yank(store, crate_name, num, user_id, false)
}

/// The yank state machine. An unauthorized caller changes nothing; a
/// transition to the state the version is already in writes nothing and
/// records no index mutation; otherwise the relational flag is updated
/// and the intended index mutation is recorded in the outbox within the
/// same transaction, for the external synchronizer to apply with
/// idempotent retries.
fn modify_yank(store: &mut Store, crate_name: &str, num: &str, user_id: i32, target: bool) -> (r:
    Result<bool, CargoError>)
    requires
        old(store).wf(),
    ensures
        final(store).wf(),
        modify_yank_post(*old(store), *final(store), r, crate_name@, num@, user_id, target),
{
    let (version, krate) = match version_and_crate(store, crate_name, num) {
        Ok(p) => p,
        Err(e) => {
            return Err(e);
        },
    };
    proof {
        let ck = crate_idx_by_name(store.crates@, crate_name@, 0);
        crate::store::lemma_version_idx_by_num_found(
            store.versions@,
            store.crates@[ck].id,
            canon_num(num@),
            0,
        );
    }
    if !contains_id(&krate.owners, user_id) {
        return Err(CargoError::Unauthorized);
    }
    if version.yanked != target {
        let ghost pre = *store;
        let ghost ck = crate_idx_by_name(pre.crates@, crate_name@, 0);
        let ghost vk = version_idx_by_num(pre.versions@, pre.crates@[ck].id, canon_num(num@), 0);
        proof {
            crate::store::lemma_version_idx_by_id_unique(pre.versions@, vk, 0);
        }
        let _ = version.yank(store, target);
        store.outbox.push(IndexEntry { krate: krate.name, num: version.num, yanked: target });
        proof {
            let step = yank_step(
                pre.versions@,
                outbox_view(pre.outbox@),
                vk,
                pre.crates@[ck].name@,
                target,
            );
            assert(store.versions@ == step.0);
            assert(outbox_view(store.outbox@) =~= step.1);
        }
    }
    Ok(true)
}

} // verus!
