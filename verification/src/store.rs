//! The relational store, modelled as an explicit value.
//!
//! Every operation of the core takes the store as a parameter, making the
//! caller-scoped transaction boundary visible at each call site. The
//! `versions`, `dependencies` and `version_authors` tables are owned by
//! this core; `crates`, `users` and `version_downloads` model the data of
//! the external collaborators this core reads. The `outbox` holds the
//! intended mutations of the git-backed index: they are recorded here, in
//! the same transaction as the relational write, and applied outside by
//! an index synchronizer with idempotent retries, so a failed index write
//! never leaves the two stores silently divergent.

use vstd::prelude::*;

use crate::encode::MAX_ENCODABLE_TIME;
use crate::record::{AuthorRow, CrateRow, Dependency, IndexEntry, User, VersionDownload, VersionRow};

verus! {

/// The first position at or after `i` whose row has this id, or -1.
pub open spec fn version_idx_by_id(rows: Seq<VersionRow>, id: i32, i: int) -> int
    decreases rows.len() - i,
{
    if i < 0 || i >= rows.len() {
        -1
    } else if rows[i].id == id {
        i
    } else {
        version_idx_by_id(rows, id, i + 1)
    }
}

/// The first position at or after `i` whose row has this crate id and
/// this canonical version string, or -1.
pub open spec fn version_idx_by_num(rows: Seq<VersionRow>, crate_id: i32, num: Seq<char>, i: int) -> int
    decreases rows.len() - i,
{
    if i < 0 || i >= rows.len() {
        -1
    } else if rows[i].crate_id == crate_id && rows[i].num@ == num {
        i
    } else {
        version_idx_by_num(rows, crate_id, num, i + 1)
    }
}

/// The first position at or after `i` whose crate has this id, or -1.
pub open spec fn crate_idx_by_id(crates: Seq<CrateRow>, id: i32, i: int) -> int
    decreases crates.len() - i,
{
    if i < 0 || i >= crates.len() {
        -1
    } else if crates[i].id == id {
        i
    } else {
        crate_idx_by_id(crates, id, i + 1)
    }
}

/// The first position at or after `i` whose crate has this name, or -1.
pub open spec fn crate_idx_by_name(crates: Seq<CrateRow>, name: Seq<char>, i: int) -> int
    decreases crates.len() - i,
{
    if i < 0 || i >= crates.len() {
        -1
    } else if crates[i].name@ == name {
        i
    } else {
        crate_idx_by_name(crates, name, i + 1)
    }
}

/// The first position at or after `i` whose user has this id, or -1.
pub open spec fn user_idx_by_id(users: Seq<User>, id: i32, i: int) -> int
    decreases users.len() - i,
{
    if i < 0 || i >= users.len() {
        -1
    } else if users[i].id == id {
        i
    } else {
        user_idx_by_id(users, id, i + 1)
    }
}

/// `new_s` is `old_s` with exactly one element appended.
pub open spec fn extends_by_one<T>(old_s: Seq<T>, new_s: Seq<T>) -> bool {
    &&& new_s.len() == old_s.len() + 1
    &&& forall|i: int| 0 <= i < old_s.len() ==> new_s[i] == old_s[i]
}

/// The mathematical value of the index outbox.
pub open spec fn outbox_view(ob: Seq<IndexEntry>) -> Seq<(Seq<char>, Seq<char>, bool)> {
    ob.map_values(|e: IndexEntry| (e.krate@, e.num@, e.yanked))
}

/// The relational store plus the transactional outbox of intended index
/// mutations.
pub struct Store {
    pub versions: Vec<VersionRow>,
    pub dependencies: Vec<Dependency>,
    pub authors: Vec<AuthorRow>,
    pub crates: Vec<CrateRow>,
    pub users: Vec<User>,
    pub downloads: Vec<VersionDownload>,
    pub outbox: Vec<IndexEntry>,
    pub next_version_id: i32,
    pub next_dep_id: i32,
    pub next_crate_id: i32,
}

impl Store {
    /// Well-formedness: ids are unique and below their counters, a
    /// (crate id, version string) pair names at most one version, every
    /// version and dependency references an existing crate, crate names
    /// are unique, user ids are unique, and the download table is kept
    /// in ascending date order by the external aggregator.
    pub open spec fn wf(self) -> bool {
        &&& 0 <= self.next_version_id
        &&& 0 <= self.next_dep_id
        &&& 0 <= self.next_crate_id
        &&& forall|i: int, j: int|
            0 <= i < j < self.versions@.len() ==> self.versions@[i].id != self.versions@[j].id
        &&& forall|i: int, j: int|
            0 <= i < j < self.versions@.len() ==> !(self.versions@[i].crate_id
                == self.versions@[j].crate_id && self.versions@[i].num@ == self.versions@[j].num@)
        &&& forall|i: int|
            0 <= i < self.versions@.len() ==> 0 <= #[trigger] self.versions@[i].id
                < self.next_version_id
        &&& forall|i: int|
            0 <= i < self.versions@.len() ==> 0 <= #[trigger] self.versions@[i].created_at
                < MAX_ENCODABLE_TIME && 0 <= self.versions@[i].updated_at < MAX_ENCODABLE_TIME
        &&& forall|i: int|
            0 <= i < self.versions@.len() ==> crate_idx_by_id(
                self.crates@,
                #[trigger] self.versions@[i].crate_id,
                0,
            ) >= 0
        &&& forall|i: int, j: int|
            0 <= i < j < self.crates@.len() ==> self.crates@[i].id != self.crates@[j].id
        &&& forall|i: int, j: int|
            0 <= i < j < self.crates@.len() ==> self.crates@[i].name@ != self.crates@[j].name@
        &&& forall|i: int|
            0 <= i < self.crates@.len() ==> 0 <= #[trigger] self.crates@[i].id
                < self.next_crate_id
        &&& forall|i: int|
            0 <= i < self.dependencies@.len() ==> 0 <= #[trigger] self.dependencies@[i].id
                < self.next_dep_id
        &&& forall|i: int|
            0 <= i < self.dependencies@.len() ==> crate_idx_by_id(
                self.crates@,
                #[trigger] self.dependencies@[i].crate_id,
                0,
            ) >= 0
        &&& forall|i: int, j: int|
            0 <= i < j < self.users@.len() ==> self.users@[i].id != self.users@[j].id
        &&& forall|i: int, j: int|
            0 <= i < j < self.downloads@.len() ==> self.downloads@[i].date
                <= self.downloads@[j].date
    }

    /// An empty store, the state before anything was published.
    pub fn new() -> (s: Store)
        ensures
            s.wf(),
            s.versions@.len() == 0,
            s.dependencies@.len() == 0,
            s.authors@.len() == 0,
            s.crates@.len() == 0,
            s.users@.len() == 0,
            s.downloads@.len() == 0,
            s.outbox@.len() == 0,
    {
        Store {
            versions: Vec::new(),
            dependencies: Vec::new(),
            authors: Vec::new(),
            crates: Vec::new(),
            users: Vec::new(),
            downloads: Vec::new(),
            outbox: Vec::new(),
            next_version_id: 1,
            next_dep_id: 1,
            next_crate_id: 1,
        }
    }

    /// Records a registered user, as the external user subsystem would.
    pub fn add_user(&mut self, id: i32, login: &str)
        requires
            old(self).wf(),
            user_idx_by_id(old(self).users@, id, 0) == -1,
            0 <= id,
        ensures
            final(self).wf(),
            extends_by_one(old(self).users@, final(self).users@),
            final(self).users@.last().id == id,
            final(self).users@.last().login@ == login@,
            final(self).versions@ == old(self).versions@,
            final(self).dependencies@ == old(self).dependencies@,
            final(self).authors@ == old(self).authors@,
            final(self).crates@ == old(self).crates@,
            final(self).downloads@ == old(self).downloads@,
            final(self).outbox@ == old(self).outbox@,
    {
        proof {
            lemma_user_idx_none(self.users@, id, 0);
        }
        self.users.push(User { id, login: login.to_owned() });
    }

    /// Records a crate with its owner set, as the external crate
    /// subsystem would, and returns its fresh id.
    pub fn add_crate(&mut self, name: &str, owners: Vec<i32>) -> (id: i32)
        requires
            old(self).wf(),
            crate_idx_by_name(old(self).crates@, name@, 0) == -1,
            old(self).next_crate_id < i32::MAX,
        ensures
            final(self).wf(),
            id == old(self).next_crate_id,
            extends_by_one(old(self).crates@, final(self).crates@),
            final(self).crates@.last().id == id,
            final(self).crates@.last().name@ == name@,
            final(self).crates@.last().owners == owners,
            final(self).next_crate_id == old(self).next_crate_id + 1,
            crate_idx_by_id(final(self).crates@, id, 0) == old(self).crates@.len(),
            final(self).versions@ == old(self).versions@,
            final(self).dependencies@ == old(self).dependencies@,
            final(self).authors@ == old(self).authors@,
            final(self).users@ == old(self).users@,
            final(self).downloads@ == old(self).downloads@,
            final(self).outbox@ == old(self).outbox@,
    {
        let id = self.next_crate_id;
        proof {
            lemma_crate_idx_by_name_none(self.crates@, name@, 0);
        }
        self.crates.push(CrateRow { id, name: name.to_owned(), owners });
        self.next_crate_id = id + 1;
        proof {
            let cs = self.crates@;
            let olds = old(self).crates@;
            lemma_crate_idx_by_name_none(olds, name@, 0);
            assert forall|i: int| 0 <= i < cs.len() - 1 implies cs[i].id != id by {
                assert(cs[i] == olds[i]);
            }
            assert forall|i: int, j: int| 0 <= i < j < cs.len() implies cs[i].id != cs[j].id by {
                assert(cs[i] == olds[i]);
                if j < cs.len() - 1 {
                    assert(cs[j] == olds[j]);
                }
            }
            assert forall|i: int, j: int|
                0 <= i < j < cs.len() implies cs[i].name@ != cs[j].name@ by {
                assert(cs[i] == olds[i]);
                if j < cs.len() - 1 {
                    assert(cs[j] == olds[j]);
                }
            }
            lemma_crate_idx_by_id_skips(cs, id, 0, cs.len() - 1);
            assert forall|i: int|
                0 <= i < self.versions@.len() implies crate_idx_by_id(
                cs,
                #[trigger] self.versions@[i].crate_id,
                0,
            ) >= 0 by {
                lemma_crate_idx_by_id_push(old(self).crates@, cs.last(), self.versions@[i].crate_id);
            }
            assert forall|i: int|
                0 <= i < self.dependencies@.len() implies crate_idx_by_id(
                cs,
                #[trigger] self.dependencies@[i].crate_id,
                0,
            ) >= 0 by {
                lemma_crate_idx_by_id_push(
                    old(self).crates@,
                    cs.last(),
                    self.dependencies@[i].crate_id,
                );
            }
        }
        id
    }

    /// Records one per-day download count, as the external aggregator
    /// would; the aggregator appends in date order.
    pub fn record_download(&mut self, version_id: i32, date: i64, count: i32)
        requires
            old(self).wf(),
            old(self).downloads@.len() > 0 ==> old(self).downloads@.last().date <= date,
        ensures
            final(self).wf(),
            final(self).downloads@ == old(self).downloads@.push(
                VersionDownload { version_id, date, downloads: count },
            ),
            final(self).versions@ == old(self).versions@,
            final(self).dependencies@ == old(self).dependencies@,
            final(self).authors@ == old(self).authors@,
            final(self).crates@ == old(self).crates@,
            final(self).users@ == old(self).users@,
            final(self).outbox@ == old(self).outbox@,
    {
        self.downloads.push(VersionDownload { version_id, date, downloads: count });
        proof {
            let ds = self.downloads@;
            assert forall|i: int, j: int| 0 <= i < j < ds.len() implies ds[i].date <= ds[j].date by {
                if j < ds.len() - 1 {
                } else {
                    assert(old(self).downloads@.last().date <= date);
                }
            }
        }
    }

    /// Records an author row that links a version to a registered user.
    /// This core never writes such rows itself (author linking is a
    /// deliberate non-feature); they model attribution written by an
    /// earlier subsystem, and may dangle if the user was since removed.
    pub fn record_user_author(&mut self, version_id: i32, user_id: i32, name: &str)
        requires
            old(self).wf(),
        ensures
            final(self).wf(),
            extends_by_one(old(self).authors@, final(self).authors@),
            final(self).authors@.last().version_id == version_id,
            final(self).authors@.last().user_id == Some(user_id),
            final(self).authors@.last().name@ == name@,
            final(self).versions@ == old(self).versions@,
            final(self).dependencies@ == old(self).dependencies@,
            final(self).crates@ == old(self).crates@,
            final(self).users@ == old(self).users@,
            final(self).downloads@ == old(self).downloads@,
            final(self).outbox@ == old(self).outbox@,
    {
        self.authors.push(AuthorRow { version_id, user_id: Some(user_id), name: name.to_owned() });
    }

    /// The outbox of intended index mutations, in the order they were
    /// decided.
    pub fn index_outbox(&self) -> (r: &Vec<IndexEntry>)
        ensures
            r@ == self.outbox@,
    {
        &self.outbox
    }
}

/// A search that returned -1 found no match anywhere at or after `i`.
pub proof fn lemma_version_idx_by_num_none(rows: Seq<VersionRow>, crate_id: i32, num: Seq<char>, i: int)
    requires
        0 <= i,
        version_idx_by_num(rows, crate_id, num, i) == -1,
    ensures
        forall|j: int|
            i <= j < rows.len() ==> !(#[trigger] rows[j].crate_id == crate_id && rows[j].num@
                == num),
    decreases rows.len() - i,
{
    if 0 <= i < rows.len() {
        lemma_version_idx_by_num_none(rows, crate_id, num, i + 1);
    }
}

/// A search that returned a position found a match there, and nothing
/// earlier at or after `i` matches.
pub proof fn lemma_version_idx_by_num_found(rows: Seq<VersionRow>, crate_id: i32, num: Seq<char>, i: int)
    requires
        version_idx_by_num(rows, crate_id, num, i) >= 0,
    ensures
        ({
            let k = version_idx_by_num(rows, crate_id, num, i);
            &&& i <= k < rows.len()
            &&& rows[k].crate_id == crate_id
            &&& rows[k].num@ == num
        }),
    decreases rows.len() - i,
{
    if 0 <= i < rows.len() {
        if rows[i].crate_id == crate_id && rows[i].num@ == num {
        } else {
            lemma_version_idx_by_num_found(rows, crate_id, num, i + 1);
        }
    }
}

/// Appending a row that matches the key to rows in which the key is
/// absent makes the search find exactly the appended row.
pub proof fn lemma_version_idx_by_num_push(
    rows: Seq<VersionRow>,
    row: VersionRow,
    crate_id: i32,
    num: Seq<char>,
    i: int,
)
    requires
        0 <= i <= rows.len(),
        version_idx_by_num(rows, crate_id, num, i) == -1,
        row.crate_id == crate_id,
        row.num@ == num,
    ensures
        version_idx_by_num(rows.push(row), crate_id, num, i) == rows.len(),
    decreases rows.len() - i,
{
    let ext = rows.push(row);
    if i < rows.len() {
        assert(ext[i] == rows[i]);
        lemma_version_idx_by_num_push(rows, row, crate_id, num, i + 1);
    } else {
        assert(ext[i] == row);
    }
}


/// A search that returned -1 found no user anywhere at or after `i`.
pub proof fn lemma_user_idx_none(users: Seq<User>, id: i32, i: int)
    requires
        0 <= i,
        user_idx_by_id(users, id, i) == -1,
    ensures
        forall|j: int| i <= j < users.len() ==> #[trigger] users[j].id != id,
    decreases users.len() - i,
{
    if 0 <= i < users.len() {
        lemma_user_idx_none(users, id, i + 1);
    }
}

/// A search that returned -1 found no crate of this name at or after `i`.
pub proof fn lemma_crate_idx_by_name_none(crates: Seq<CrateRow>, name: Seq<char>, i: int)
    requires
        0 <= i,
        crate_idx_by_name(crates, name, i) == -1,
    ensures
        forall|j: int| i <= j < crates.len() ==> #[trigger] crates[j].name@ != name,
    decreases crates.len() - i,
{
    if 0 <= i < crates.len() {
        lemma_crate_idx_by_name_none(crates, name, i + 1);
    }
}



/// When no crate before position `k` has the id and the crate at `k`
/// does, the search from `i` at or before `k` returns `k`.
pub proof fn lemma_crate_idx_by_id_skips(crates: Seq<CrateRow>, id: i32, i: int, k: int)
    requires
        0 <= i <= k < crates.len(),
        crates[k].id == id,
        forall|j: int| i <= j < k ==> #[trigger] crates[j].id != id,
    ensures
        crate_idx_by_id(crates, id, i) == k,
    decreases k - i,
{
    if i < k {
        lemma_crate_idx_by_id_skips(crates, id, i + 1, k);
    }
}

/// A search that returned a position found a row with that id there.
pub proof fn lemma_version_idx_by_id_found(rows: Seq<VersionRow>, id: i32, i: int)
    requires
        version_idx_by_id(rows, id, i) >= 0,
    ensures
        ({
            let k = version_idx_by_id(rows, id, i);
            &&& i <= k < rows.len()
            &&& rows[k].id == id
        }),
    decreases rows.len() - i,
{
    if 0 <= i < rows.len() {
        if rows[i].id == id {
        } else {
            lemma_version_idx_by_id_found(rows, id, i + 1);
        }
    }
}

/// With unique ids, the search by id finds exactly the position the id
/// occurs at.
pub proof fn lemma_version_idx_by_id_unique(rows: Seq<VersionRow>, k: int, i: int)
    requires
        0 <= i <= k < rows.len(),
        forall|p: int, q: int| 0 <= p < q < rows.len() ==> rows[p].id != rows[q].id,
    ensures
        version_idx_by_id(rows, rows[k].id, i) == k,
    decreases k - i,
{
    if i < k {
        assert(rows[i].id != rows[k].id);
        lemma_version_idx_by_id_unique(rows, k, i + 1);
    }
}

/// A search that returned a position found a user with that id there.
pub proof fn lemma_user_idx_found(users: Seq<User>, id: i32, i: int)
    requires
        user_idx_by_id(users, id, i) >= 0,
    ensures
        ({
            let k = user_idx_by_id(users, id, i);
            &&& i <= k < users.len()
            &&& users[k].id == id
        }),
    decreases users.len() - i,
{
    if 0 <= i < users.len() {
        if users[i].id == id {
        } else {
            lemma_user_idx_found(users, id, i + 1);
        }
    }
}

/// A crate id that occurs at some position is found by the search.
pub proof fn lemma_crate_idx_by_id_exists(crates: Seq<CrateRow>, k: int, i: int)
    requires
        0 <= i <= k < crates.len(),
    ensures
        crate_idx_by_id(crates, crates[k].id, i) >= 0,
    decreases k - i,
{
    if crates[i].id == crates[k].id {
    } else {
        lemma_crate_idx_by_id_exists(crates, k, i + 1);
    }
}

/// Appending a crate keeps every id that resolved resolving.
pub proof fn lemma_crate_idx_by_id_push(crates: Seq<CrateRow>, row: CrateRow, id: i32)
    requires
        crate_idx_by_id(crates, id, 0) >= 0,
    ensures
        crate_idx_by_id(crates.push(row), id, 0) >= 0,
{
    lemma_crate_idx_by_id_push_from(crates, row, id, 0);
}

/// Helper for [`lemma_crate_idx_by_id_push`], generalized over the start.
pub proof fn lemma_crate_idx_by_id_push_from(crates: Seq<CrateRow>, row: CrateRow, id: i32, i: int)
    requires
        0 <= i,
        crate_idx_by_id(crates, id, i) >= 0,
    ensures
        crate_idx_by_id(crates.push(row), id, i) >= 0,
    decreases crates.len() - i,
{
    let ext = crates.push(row);
    if i < crates.len() {
        assert(ext[i] == crates[i]);
        if crates[i].id == id {
        } else {
            lemma_crate_idx_by_id_push_from(crates, row, id, i + 1);
        }
    }
}

} // verus!
