//! Persistence and retrieval of version records, and the operations a
//! version owns: dependency edges, author attribution, and the relational
//! half of the yank lifecycle.

use vstd::prelude::*;

use crate::error::CargoError;
use crate::num::{canon_num, parse_canonical, semver_ok};
use crate::record::{
    clone_features, clone_strings, decoded_features, dep_eq, features_view, row_decodes_to,
    AuthorRow, CrateDependency, CrateRow, Dependency, User, Version, VersionAuthor, VersionRow,
};
use crate::store::{
    crate_idx_by_id, crate_idx_by_name, extends_by_one, lemma_crate_idx_by_id_exists,
    lemma_version_idx_by_num_none, lemma_version_idx_by_num_push, user_idx_by_id,
    version_idx_by_id, version_idx_by_num, Store,
};

verus! {

/// Position of the version row with this id, if any.
pub(crate) fn find_version_pos_by_id(rows: &Vec<VersionRow>, id: i32) -> (r: Option<usize>)
    ensures
        r is Some ==> version_idx_by_id(rows@, id, 0) == r->0 && r->0 < rows@.len(),
        r is None ==> version_idx_by_id(rows@, id, 0) == -1,
{
    let mut i: usize = 0;
    while i < rows.len()
        invariant
            i <= rows.len(),
            version_idx_by_id(rows@, id, 0) == version_idx_by_id(rows@, id, i as int),
        decreases rows.len() - i,
    {
        if rows[i].id == id {
            return Some(i);
        }
        proof {
            assert(version_idx_by_id(rows@, id, i as int) == version_idx_by_id(
                rows@,
                id,
                i + 1 as int,
            ));
        }
        i = i + 1;
    }
    None
}

/// Position of the version row of this crate with this canonical string,
/// if any.
pub(crate) fn find_version_pos_by_num(rows: &Vec<VersionRow>, crate_id: i32, num: &String) -> (r:
    Option<usize>)
    ensures
        r is Some ==> version_idx_by_num(rows@, crate_id, num@, 0) == r->0 && r->0 < rows@.len(),
        r is None ==> version_idx_by_num(rows@, crate_id, num@, 0) == -1,
{
    let mut i: usize = 0;
    while i < rows.len()
        invariant
            i <= rows.len(),
            version_idx_by_num(rows@, crate_id, num@, 0) == version_idx_by_num(
                rows@,
                crate_id,
                num@,
                i as int,
            ),
        decreases rows.len() - i,
    {
        if rows[i].crate_id == crate_id && rows[i].num == *num {
            return Some(i);
        }
        proof {
            assert(version_idx_by_num(rows@, crate_id, num@, i as int) == version_idx_by_num(
                rows@,
                crate_id,
                num@,
                i + 1 as int,
            ));
        }
        i = i + 1;
    }
    None
}

/// Position of the crate with this id, if any.
pub(crate) fn find_crate_pos_by_id(crates: &Vec<CrateRow>, id: i32) -> (r: Option<usize>)
    ensures
        r is Some ==> crate_idx_by_id(crates@, id, 0) == r->0 && r->0 < crates@.len(),
        r is None ==> crate_idx_by_id(crates@, id, 0) == -1,
{
    let mut i: usize = 0;
    while i < crates.len()
        invariant
            i <= crates.len(),
            crate_idx_by_id(crates@, id, 0) == crate_idx_by_id(crates@, id, i as int),
        decreases crates.len() - i,
    {
        if crates[i].id == id {
            return Some(i);
        }
        proof {
            assert(crate_idx_by_id(crates@, id, i as int) == crate_idx_by_id(
                crates@,
                id,
                i + 1 as int,
            ));
        }
        i = i + 1;
    }
    None
}

/// Position of the crate with this name, if any.
pub(crate) fn find_crate_pos_by_name(crates: &Vec<CrateRow>, name: &String) -> (r: Option<usize>)
    ensures
        r is Some ==> crate_idx_by_name(crates@, name@, 0) == r->0 && r->0 < crates@.len(),
        r is None ==> crate_idx_by_name(crates@, name@, 0) == -1,
{
    let mut i: usize = 0;
    while i < crates.len()
        invariant
            i <= crates.len(),
            crate_idx_by_name(crates@, name@, 0) == crate_idx_by_name(crates@, name@, i as int),
        decreases crates.len() - i,
    {
        if crates[i].name == *name {
            return Some(i);
        }
        proof {
            assert(crate_idx_by_name(crates@, name@, i as int) == crate_idx_by_name(
                crates@,
                name@,
                i + 1 as int,
            ));
        }
        i = i + 1;
    }
    None
}

/// Position of the user with this id, if any.
pub(crate) fn find_user_pos(users: &Vec<User>, id: i32) -> (r: Option<usize>)
    ensures
        r is Some ==> user_idx_by_id(users@, id, 0) == r->0 && r->0 < users@.len(),
        r is None ==> user_idx_by_id(users@, id, 0) == -1,
{
    let mut i: usize = 0;
    while i < users.len()
        invariant
            i <= users.len(),
            user_idx_by_id(users@, id, 0) == user_idx_by_id(users@, id, i as int),
        decreases users.len() - i,
    {
        if users[i].id == id {
            return Some(i);
        }
        proof {
            assert(user_idx_by_id(users@, id, i as int) == user_idx_by_id(users@, id, i + 1 as int));
        }
        i = i + 1;
    }
    None
}

/// The name of the crate this id resolves to.
pub open spec fn crate_name_of(crates: Seq<CrateRow>, id: i32) -> Seq<char> {
    crates[crate_idx_by_id(crates, id, 0)].name@
}

/// The dependency rows of a version, in storage order, each paired with
/// the name of the crate it references.
pub open spec fn deps_pairs(deps: Seq<Dependency>, crates: Seq<CrateRow>, vid: i32) -> Seq<
    (Dependency, Seq<char>),
>
    decreases deps.len(),
{
    if deps.len() == 0 {
        Seq::empty()
    } else {
        let prefix = deps_pairs(deps.drop_last(), crates, vid);
        if deps.last().version_id == vid {
            prefix.push((deps.last(), crate_name_of(crates, deps.last().crate_id)))
        } else {
            prefix
        }
    }
}

/// An executable dependency listing carries the same data as its
/// mathematical counterpart, pair by pair.
pub open spec fn dep_pairs_match(r: Seq<(Dependency, String)>, s: Seq<(Dependency, Seq<char>)>) -> bool {
    &&& r.len() == s.len()
    &&& forall|j: int|
        0 <= j < r.len() ==> dep_eq(#[trigger] r[j].0, s[j].0) && r[j].1@ == s[j].1
}

/// The author rows of a version, in storage order.
pub open spec fn author_rows_of(rows: Seq<AuthorRow>, vid: i32) -> Seq<AuthorRow>
    decreases rows.len(),
{
    if rows.len() == 0 {
        Seq::empty()
    } else {
        let prefix = author_rows_of(rows.drop_last(), vid);
        if rows.last().version_id == vid {
            prefix.push(rows.last())
        } else {
            prefix
        }
    }
}

/// Every author row of the version that references a registered user
/// references one that exists.
pub open spec fn authors_resolve(rows: Seq<AuthorRow>, users: Seq<User>, vid: i32) -> bool {
    forall|j: int|
        0 <= j < rows.len() && (#[trigger] rows[j]).version_id == vid && rows[j].user_id is Some
            ==> user_idx_by_id(users, rows[j].user_id->0, 0) >= 0
}

/// An executable author listing resolves each row with a user reference
/// to that user and keeps each free-text row as its name.
pub open spec fn authors_match(r: Seq<VersionAuthor>, rows: Seq<AuthorRow>, users: Seq<User>) -> bool {
    &&& r.len() == rows.len()
    &&& forall|j: int|
        0 <= j < r.len() ==> {
            let a = #[trigger] rows[j];
            match a.user_id {
                Some(u) => {
                    &&& r[j] is AuthorUser
                    &&& r[j]->AuthorUser_0.id == u
                    &&& user_idx_by_id(users, u, 0) >= 0
                    &&& r[j]->AuthorUser_0.login@ == users[user_idx_by_id(users, u, 0)].login@
                },
                None => r[j] is AuthorName && r[j]->AuthorName_0@ == a.name@,
            }
        }
}

impl Version {
    /// Decodes a raw row. An absent feature column decodes to the empty
    /// mapping, never to an error.
    pub fn from_row(row: &VersionRow) -> (v: Version)
        ensures
            row_decodes_to(*row, v),
            row.features is None ==> v.features@.len() == 0,
    {
        let features: Vec<(String, Vec<String>)> = match &row.features {
            Some(f) => clone_features(f),
            None => Vec::new(),
        };
        proof {
            if row.features is None {
                assert(features_view(features) =~~= decoded_features(row.features));
            }
        }
        Version {
            id: row.id,
            crate_id: row.crate_id,
            num: row.num.clone(),
            updated_at: row.updated_at,
            created_at: row.created_at,
            downloads: row.downloads,
            features,
            yanked: row.yanked,
        }
    }

    /// The relational table version records live in.
    pub fn table_name() -> (r: &'static str)
        ensures
            r@ == "versions"@,
    {
        "versions"
    }

    /// Loads the version with this id; absence is an error here.
    pub fn find(store: &Store, id: i32) -> (r: Result<Version, CargoError>)
        ensures
            r is Ok <==> version_idx_by_id(store.versions@, id, 0) >= 0,
            r is Ok ==> row_decodes_to(
                store.versions@[version_idx_by_id(store.versions@, id, 0)],
                r->Ok_0,
            ),
            r is Err ==> r->Err_0 == (CargoError::VersionIdNotFound { id }),
    {
        match find_version_pos_by_id(&store.versions, id) {
            Some(k) => Ok(Version::from_row(&store.versions[k])),
            None => Err(CargoError::VersionIdNotFound { id }),
        }
    }

    /// Pure syntactic semantic-version validation; no storage is touched.
    pub fn valid(version: &str) -> (b: bool)
        ensures
            b == semver_ok(version@),
    {
        parse_canonical(version).is_some()
    }

    /// Looks a version up by crate and version string. The string is
    /// first normalized to its canonical form; a missing row is an
    /// absence, not an error.
    pub fn find_by_num(store: &Store, crate_id: i32, num: &str) -> (r: Result<
        Option<Version>,
        CargoError,
    >)
        ensures
            r is Ok <==> semver_ok(num@),
            r is Err ==> r->Err_0 is InvalidSemver && r->Err_0->InvalidSemver_num@ == num@,
            semver_ok(num@) ==> {
                let k = version_idx_by_num(store.versions@, crate_id, canon_num(num@), 0);
                &&& (k == -1 ==> r->Ok_0 is None)
                &&& (k >= 0 ==> r->Ok_0 is Some && row_decodes_to(store.versions@[k], r->Ok_0->0))
            },
    {
        let canon = match parse_canonical(num) {
            Some(c) => c,
            None => {
                return Err(CargoError::InvalidSemver { num: num.to_owned() });
            },
        };
        match find_version_pos_by_num(&store.versions, crate_id, &canon) {
            Some(k) => Ok(Some(Version::from_row(&store.versions[k]))),
            None => Ok(None),
        }
    }
    /// Publishes a version: validates the semantic version, stores the
    /// row with zero downloads and `created_at == updated_at == now`,
    /// then stores one free-text author row per supplied name. In this
    /// in-memory model author insertion cannot fail, so a version is
    /// never persisted with a subset of its authors; a duplicate
    /// (crate, version) pair or an unknown crate id violates a storage
    /// invariant and is an internal error.
    pub fn insert(
        store: &mut Store,
        crate_id: i32,
        num: &str,
        features: Vec<(String, Vec<String>)>,
        authors: Vec<String>,
        now: i64,
    ) -> (r: Result<Version, CargoError>)
        requires
            old(store).wf(),
            old(store).next_version_id < i32::MAX,
            0 <= now < crate::encode::MAX_ENCODABLE_TIME,
        ensures
            final(store).wf(),
            r is Err ==> *final(store) == *old(store),
            r is Ok ==> semver_ok(num@) && crate_idx_by_id(old(store).crates@, crate_id, 0) >= 0
                && version_idx_by_num(old(store).versions@, crate_id, canon_num(num@), 0) == -1,
            !semver_ok(num@) <==> (r is Err && r->Err_0 is InvalidSemver),
            r is Err && r->Err_0 is InvalidSemver ==> r->Err_0->InvalidSemver_num@ == num@,
            semver_ok(num@) && crate_idx_by_id(old(store).crates@, crate_id, 0) == -1 ==> r == Err::<
                Version,
                CargoError,
            >(CargoError::Internal),
            semver_ok(num@) && crate_idx_by_id(old(store).crates@, crate_id, 0) >= 0
                && version_idx_by_num(old(store).versions@, crate_id, canon_num(num@), 0) >= 0
                ==> r == Err::<Version, CargoError>(CargoError::Internal),
            semver_ok(num@) && crate_idx_by_id(old(store).crates@, crate_id, 0) >= 0
                && version_idx_by_num(old(store).versions@, crate_id, canon_num(num@), 0) == -1
                ==> ({
                let rows = final(store).versions@;
                let row = rows.last();
                &&& r is Ok
                &&& extends_by_one(old(store).versions@, rows)
                &&& row.id == old(store).next_version_id
                &&& row.crate_id == crate_id
                &&& row.num@ == canon_num(num@)
                &&& row.updated_at == now
                &&& row.created_at == now
                &&& row.downloads == 0
                &&& row.features is Some
                &&& decoded_features(row.features) == features_view(features)
                &&& row.yanked == false
                &&& row_decodes_to(row, r->Ok_0)
                &&& final(store).next_version_id == old(store).next_version_id + 1
                &&& final(store).authors@.len() == old(store).authors@.len() + authors@.len()
                &&& (forall|i: int|
                    0 <= i < old(store).authors@.len() ==> final(store).authors@[i] == old(
                        store,
                    ).authors@[i])
                &&& (forall|i: int|
                    0 <= i < authors@.len() ==> {
                        let a = #[trigger] final(store).authors@[old(store).authors@.len() + i];
                        &&& a.version_id == old(store).next_version_id
                        &&& a.user_id is None
                        &&& a.name@ == authors@[i]@
                    })
                &&& final(store).dependencies@ == old(store).dependencies@
                &&& final(store).crates@ == old(store).crates@
                &&& final(store).users@ == old(store).users@
                &&& final(store).downloads@ == old(store).downloads@
                &&& final(store).outbox@ == old(store).outbox@
            }),
    {
        let canon = match parse_canonical(num) {
            Some(c) => c,
            None => {
                return Err(CargoError::InvalidSemver { num: num.to_owned() });
            },
        };
        if find_crate_pos_by_id(&store.crates, crate_id).is_none() {
            return Err(CargoError::Internal);
        }
        if find_version_pos_by_num(&store.versions, crate_id, &canon).is_some() {
            return Err(CargoError::Internal);
        }
        let id = store.next_version_id;
        let row = VersionRow {
            id,
            crate_id,
            num: canon.clone(),
            updated_at: now,
            created_at: now,
            downloads: 0,
            features: Some(clone_features(&features)),
            yanked: false,
        };
        store.versions.push(row);
        store.next_version_id = id + 1;
        proof {
            let olds = old(store).versions@;
            let rows = store.versions@;
            lemma_version_idx_by_num_none(olds, crate_id, canon@, 0);
            assert forall|i: int, j: int| 0 <= i < j < rows.len() implies rows[i].id
                != rows[j].id by {
                assert(rows[i] == olds[i]);
                if j < rows.len() - 1 {
                    assert(rows[j] == olds[j]);
                }
            }
            assert forall|i: int, j: int| 0 <= i < j < rows.len() implies !(rows[i].crate_id
                == rows[j].crate_id && rows[i].num@ == rows[j].num@) by {
                assert(rows[i] == olds[i]);
                if j < rows.len() - 1 {
                    assert(rows[j] == olds[j]);
                }
            }
            assert forall|i: int|
                0 <= i < rows.len() implies 0 <= #[trigger] rows[i].created_at
                < crate::encode::MAX_ENCODABLE_TIME && 0 <= rows[i].updated_at
                < crate::encode::MAX_ENCODABLE_TIME by {
                if i < rows.len() - 1 {
                    assert(rows[i] == olds[i]);
                }
            }
        }
        let ret = Version {
            id,
            crate_id,
            num: canon,
            updated_at: now,
            created_at: now,
            downloads: 0,
            features,
            yanked: false,
        };
        let ghost mid: Store = *store;
        let mut k: usize = 0;
        while k < authors.len()
            invariant
                store.wf(),
                k <= authors.len(),
                ret.id == id,
                mid.wf(),
                store.versions@ == mid.versions@,
                store.dependencies@ == mid.dependencies@,
                store.crates@ == mid.crates@,
                store.users@ == mid.users@,
                store.downloads@ == mid.downloads@,
                store.outbox@ == mid.outbox@,
                store.next_version_id == mid.next_version_id,
                store.next_dep_id == mid.next_dep_id,
                store.next_crate_id == mid.next_crate_id,
                store.authors@.len() == mid.authors@.len() + k,
                forall|i: int| 0 <= i < mid.authors@.len() ==> store.authors@[i] == mid.authors@[i],
                forall|i: int|
                    0 <= i < k ==> {
                        let a = #[trigger] store.authors@[mid.authors@.len() + i];
                        &&& a.version_id == id
                        &&& a.user_id is None
                        &&& a.name@ == authors@[i]@
                    },
            decreases authors.len() - k,
        {
            let _ = ret.add_author(store, authors[k].as_str());
            k = k + 1;
        }
        Ok(ret)
    }

    /// Stores a free-text author row for this version. The name is not
    /// resolved to a registered user at write time; linking is a
    /// deliberate non-feature of this core.
    pub fn add_author(&self, store: &mut Store, name: &str) -> (r: Result<(), CargoError>)
        requires
            old(store).wf(),
        ensures
            final(store).wf(),
            r is Ok,
            extends_by_one(old(store).authors@, final(store).authors@),
            final(store).authors@.last().version_id == self.id,
            final(store).authors@.last().user_id is None,
            final(store).authors@.last().name@ == name@,
            final(store).versions@ == old(store).versions@,
            final(store).dependencies@ == old(store).dependencies@,
            final(store).crates@ == old(store).crates@,
            final(store).users@ == old(store).users@,
            final(store).downloads@ == old(store).downloads@,
            final(store).outbox@ == old(store).outbox@,
            final(store).next_version_id == old(store).next_version_id,
            final(store).next_dep_id == old(store).next_dep_id,
            final(store).next_crate_id == old(store).next_crate_id,
    {
        store.authors.push(AuthorRow { version_id: self.id, user_id: None, name: name.to_owned() });
        Ok(())
    }

    /// The relational half of a yank transition: sets the row's yanked
    /// flag. A missing row is not an error here, as a relational update
    /// that touches no row is not; deciding whether to write at all is
    /// the yank state machine's job.
    pub fn yank(&self, store: &mut Store, yanked: bool) -> (r: Result<(), CargoError>)
        requires
            old(store).wf(),
        ensures
            final(store).wf(),
            r is Ok,
            version_idx_by_id(old(store).versions@, self.id, 0) == -1 ==> *final(store) == *old(
                store,
            ),
            version_idx_by_id(old(store).versions@, self.id, 0) >= 0 ==> ({
                let k = version_idx_by_id(old(store).versions@, self.id, 0);
                let updated = VersionRow { yanked, ..old(store).versions@[k] };
                &&& final(store).versions@ == old(store).versions@.update(k, updated)
                &&& final(store).dependencies@ == old(store).dependencies@
                &&& final(store).authors@ == old(store).authors@
                &&& final(store).crates@ == old(store).crates@
                &&& final(store).users@ == old(store).users@
                &&& final(store).downloads@ == old(store).downloads@
                &&& final(store).outbox@ == old(store).outbox@
                &&& final(store).next_version_id == old(store).next_version_id
                &&& final(store).next_dep_id == old(store).next_dep_id
                &&& final(store).next_crate_id == old(store).next_crate_id
            }),
    {
        let k = match find_version_pos_by_id(&store.versions, self.id) {
            Some(k) => k,
            None => {
                return Ok(());
            },
        };
        let mut row = store.versions.remove(k);
        row.yanked = yanked;
        store.versions.insert(k, row);
        proof {
            let olds = old(store).versions@;
            let kk = k as int;
            let updated = VersionRow { yanked, ..olds[kk] };
            assert(store.versions@ =~= olds.update(kk, updated));
            let rows = store.versions@;
            assert forall|i: int, j: int| 0 <= i < j < rows.len() implies rows[i].id
                != rows[j].id by {
                assert(rows[i].id == olds[i].id);
                assert(rows[j].id == olds[j].id);
            }
            assert forall|i: int, j: int| 0 <= i < j < rows.len() implies !(rows[i].crate_id
                == rows[j].crate_id && rows[i].num@ == rows[j].num@) by {
                assert(rows[i].crate_id == olds[i].crate_id && rows[i].num@ == olds[i].num@);
                assert(rows[j].crate_id == olds[j].crate_id && rows[j].num@ == olds[j].num@);
            }
            assert forall|i: int|
                0 <= i < rows.len() implies 0 <= #[trigger] rows[i].id
                < store.next_version_id by {
                assert(rows[i].id == olds[i].id);
            }
            assert forall|i: int|
                0 <= i < rows.len() implies crate_idx_by_id(
                store.crates@,
                #[trigger] rows[i].crate_id,
                0,
            ) >= 0 by {
                assert(rows[i].crate_id == olds[i].crate_id);
            }
            assert forall|i: int|
                0 <= i < rows.len() implies 0 <= #[trigger] rows[i].created_at
                < crate::encode::MAX_ENCODABLE_TIME && 0 <= rows[i].updated_at
                < crate::encode::MAX_ENCODABLE_TIME by {
                assert(rows[i].created_at == olds[i].created_at && rows[i].updated_at
                    == olds[i].updated_at);
            }
        }
        Ok(())
    }

    /// Adds a dependency edge to this version: resolves the supplied
    /// crate name through the crate collaborator — an unknown name is a
    /// caller-correctable error — and persists one dependency row,
    /// returning both the stored edge and the resolved crate.
    pub fn add_dependency(&self, store: &mut Store, dep: CrateDependency) -> (r: Result<
        (Dependency, CrateRow),
        CargoError,
    >)
        requires
            old(store).wf(),
            old(store).next_dep_id < i32::MAX,
        ensures
            final(store).wf(),
            r is Err ==> *final(store) == *old(store),
            r is Err <==> crate_idx_by_name(old(store).crates@, dep.name@, 0) == -1,
            r is Ok <==> crate_idx_by_name(old(store).crates@, dep.name@, 0) >= 0,
            r is Err ==> r->Err_0 is CrateNotFound && r->Err_0->CrateNotFound_name@ == dep.name@,
            r is Ok ==> ({
                let k = crate_idx_by_name(old(store).crates@, dep.name@, 0);
                let krate = old(store).crates@[k];
                let row = final(store).dependencies@.last();
                &&& extends_by_one(old(store).dependencies@, final(store).dependencies@)
                &&& row.id == old(store).next_dep_id
                &&& row.version_id == self.id
                &&& row.crate_id == krate.id
                &&& row.req@ == dep.version_req@
                &&& row.optional == dep.optional
                &&& row.default_features == dep.default_features
                &&& row.features.deep_view() == dep.features.deep_view()
                &&& dep_eq(r->Ok_0.0, row)
                &&& r->Ok_0.1.id == krate.id
                &&& r->Ok_0.1.name@ == krate.name@
                &&& r->Ok_0.1.owners@ == krate.owners@
                &&& final(store).next_dep_id == old(store).next_dep_id + 1
                &&& final(store).versions@ == old(store).versions@
                &&& final(store).authors@ == old(store).authors@
                &&& final(store).crates@ == old(store).crates@
                &&& final(store).users@ == old(store).users@
                &&& final(store).downloads@ == old(store).downloads@
                &&& final(store).outbox@ == old(store).outbox@
            }),
    {
        let k = match find_crate_pos_by_name(&store.crates, &dep.name) {
            Some(k) => k,
            None => {
                return Err(CargoError::CrateNotFound { name: dep.name });
            },
        };
        let crate_id = store.crates[k].id;
        let id = store.next_dep_id;
        let row = Dependency {
            id,
            version_id: self.id,
            crate_id,
            req: dep.version_req.clone(),
            optional: dep.optional,
            default_features: dep.default_features,
            features: clone_strings(&dep.features),
        };
        store.dependencies.push(row);
        store.next_dep_id = id + 1;
        proof {
            let ds = store.dependencies@;
            let olds = old(store).dependencies@;
            lemma_crate_idx_by_id_exists(store.crates@, k as int, 0);
            assert forall|i: int|
                0 <= i < ds.len() implies 0 <= #[trigger] ds[i].id < store.next_dep_id by {
                if i < ds.len() - 1 {
                    assert(ds[i] == olds[i]);
                }
            }
            assert forall|i: int|
                0 <= i < ds.len() implies crate_idx_by_id(
                store.crates@,
                #[trigger] ds[i].crate_id,
                0,
            ) >= 0 by {
                if i < ds.len() - 1 {
                    assert(ds[i] == olds[i]);
                }
            }
        }
        let krate = CrateRow {
            id: crate_id,
            name: store.crates[k].name.clone(),
            owners: copy_ids(&store.crates[k].owners),
        };
        let ret = Dependency {
            id,
            version_id: self.id,
            crate_id,
            req: dep.version_req,
            optional: dep.optional,
            default_features: dep.default_features,
            features: dep.features,
        };
        Ok((ret, krate))
    }

    /// Lists every dependency row of this version, in storage order,
    /// each with the human-readable name of the crate it references.
    pub fn dependencies(&self, store: &Store) -> (r: Result<Vec<(Dependency, String)>, CargoError>)
        requires
            store.wf(),
        ensures
            r is Ok,
            dep_pairs_match(r->Ok_0@, deps_pairs(store.dependencies@, store.crates@, self.id)),
    {
        let ds = &store.dependencies;
        let mut out: Vec<(Dependency, String)> = Vec::new();
        let mut i: usize = 0;
        while i < ds.len()
            invariant
                store.wf(),
                ds == &store.dependencies,
                i <= ds.len(),
                dep_pairs_match(
                    out@,
                    deps_pairs(ds@.subrange(0, i as int), store.crates@, self.id),
                ),
            decreases ds.len() - i,
        {
            proof {
                let sub0 = ds@.subrange(0, i as int);
                let sub1 = ds@.subrange(0, i + 1 as int);
                assert(sub1.drop_last() =~= sub0);
                assert(sub1.last() == ds@[i as int]);
                if ds@[i as int].version_id == self.id {
                    assert(deps_pairs(sub1, store.crates@, self.id) == deps_pairs(
                        sub0,
                        store.crates@,
                        self.id,
                    ).push(
                        (ds@[i as int], crate_name_of(store.crates@, ds@[i as int].crate_id)),
                    ));
                } else {
                    assert(deps_pairs(sub1, store.crates@, self.id) == deps_pairs(
                        sub0,
                        store.crates@,
                        self.id,
                    ));
                }
            }
            if ds[i].version_id == self.id {
                let k = match find_crate_pos_by_id(&store.crates, ds[i].crate_id) {
                    Some(k) => k,
                    None => {
                        proof {
                            assert(false);
                        }
                        return Err(CargoError::Internal);
                    },
                };
                let d = &ds[i];
                let cloned = Dependency {
                    id: d.id,
                    version_id: d.version_id,
                    crate_id: d.crate_id,
                    req: d.req.clone(),
                    optional: d.optional,
                    default_features: d.default_features,
                    features: clone_strings(&d.features),
                };
                out.push((cloned, store.crates[k].name.clone()));
            }
            i = i + 1;
        }
        proof {
            assert(ds@.subrange(0, ds@.len() as int) =~= ds@);
        }
        Ok(out)
    }

    /// Lists this version's author attributions: a row with a user
    /// reference resolves through the user collaborator — a reference to
    /// a user that no longer exists is an error, propagated, not
    /// swallowed — and a free-text row yields its name.
    pub fn authors(&self, store: &Store) -> (r: Result<Vec<VersionAuthor>, CargoError>)
        requires
            store.wf(),
        ensures
            r is Ok <==> authors_resolve(store.authors@, store.users@, self.id),
            r is Ok ==> authors_match(
                r->Ok_0@,
                author_rows_of(store.authors@, self.id),
                store.users@,
            ),
            r is Err ==> r->Err_0 is UserNotFound && user_idx_by_id(
                store.users@,
                r->Err_0->UserNotFound_id,
                0,
            ) == -1 && exists|j: int|
                0 <= j < store.authors@.len() && (#[trigger] store.authors@[j]).version_id
                    == self.id && store.authors@[j].user_id == Some(r->Err_0->UserNotFound_id),
    {
        let rows = &store.authors;
        let mut out: Vec<VersionAuthor> = Vec::new();
        let mut i: usize = 0;
        while i < rows.len()
            invariant
                store.wf(),
                rows == &store.authors,
                i <= rows.len(),
                authors_match(
                    out@,
                    author_rows_of(rows@.subrange(0, i as int), self.id),
                    store.users@,
                ),
                forall|j: int|
                    0 <= j < i && (#[trigger] rows@[j]).version_id == self.id
                        && rows@[j].user_id is Some ==> user_idx_by_id(
                        store.users@,
                        rows@[j].user_id->0,
                        0,
                    ) >= 0,
            decreases rows.len() - i,
        {
            proof {
                assert(rows@.subrange(0, i + 1 as int).drop_last() =~= rows@.subrange(0, i as int));
                assert(rows@.subrange(0, i + 1 as int).last() == rows@[i as int]);
            }
            if rows[i].version_id == self.id {
                match rows[i].user_id {
                    Some(uid) => {
                        let k = match find_user_pos(&store.users, uid) {
                            Some(k) => k,
                            None => {
                                return Err(CargoError::UserNotFound { id: uid });
                            },
                        };
                        proof {
                            crate::store::lemma_user_idx_found(store.users@, uid, 0);
                        }
                        let user = User { id: uid, login: store.users[k].login.clone() };
                        out.push(VersionAuthor::AuthorUser(user));
                    },
                    None => {
                        out.push(VersionAuthor::AuthorName(rows[i].name.clone()));
                    },
                }
            }
            i = i + 1;
        }
        proof {
            assert(rows@.subrange(0, rows@.len() as int) =~= rows@);
        }
        Ok(out)
    }
}

/// Round trip: storing a version under a valid semantic-version string
/// and looking the pair (crate, string) up again finds exactly the
/// stored row, whose version string is the canonical form of the one
/// supplied. The hypotheses are what [`Version::insert`] guarantees of
/// the version table it leaves behind; the conclusion is the index
/// [`Version::find_by_num`] resolves the same string to.
pub proof fn lemma_insert_round_trip(
    pre: Seq<VersionRow>,
    post: Seq<VersionRow>,
    crate_id: i32,
    s: Seq<char>,
)
    requires
        semver_ok(s),
        version_idx_by_num(pre, crate_id, canon_num(s), 0) == -1,
        extends_by_one(pre, post),
        post.last().crate_id == crate_id,
        post.last().num@ == canon_num(s),
    ensures
        version_idx_by_num(post, crate_id, canon_num(s), 0) == pre.len(),
        post[version_idx_by_num(post, crate_id, canon_num(s), 0)].num@ == canon_num(s),
{
    assert(post =~= pre.push(post.last()));
    lemma_version_idx_by_num_push(pre, post.last(), crate_id, canon_num(s), 0);
}

/// Copies a list of ids.
pub(crate) fn copy_ids(v: &Vec<i32>) -> (r: Vec<i32>)
    ensures
        r@ == v@,
{
    let mut r: Vec<i32> = Vec::new();
    let mut i: usize = 0;
    while i < v.len()
        invariant
            i <= v.len(),
            r@ =~= v@.subrange(0, i as int),
        decreases v.len() - i,
    {
        r.push(v[i]);
        proof {
            assert(r@ =~= v@.subrange(0, i + 1 as int));
        }
        i = i + 1;
    }
    proof {
        assert(v@.subrange(0, v@.len() as int) =~= v@);
    }
    r
}

} // verus!

