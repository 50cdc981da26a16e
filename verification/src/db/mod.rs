//! The coupling store: commit history with file- and function-level
//! deltas, and the temporal-coupling queries over them.
//!
//! Commits are numbered in the order they were first ingested; a delta
//! names its commit by that number. The temporal coupling of `A -> B` is
//! `Count(A ∩ B) / Count(A)`, where `Count(A)` is the number of commits that
//! touch `A` and `Count(A ∩ B)` the number that touch both.

pub mod count;
pub mod rank;
pub mod events;
pub mod keys;
pub mod queries;
pub mod summary;
pub mod pairs;
pub mod laws;

use vstd::prelude::*;

use crate::analyzer::string_views;
use crate::db::keys::{interns, number_used};
use crate::git_engine::{change_symbol, file_delta_views, CommitRecord, FileDeltaView};
use crate::text::string_from_str;

verus! {

broadcast use vstd::string::group_string_axioms;

// ─── Rows ────────────────────────────────────────────────────────────────────

/// One commit.
#[derive(Debug, Clone)]
pub struct CommitRow {
    pub hash: String,
    pub short_hash: String,
    pub author_name: String,
    pub author_email: String,
    pub timestamp: i64,
    pub utc_offset: i32,
    pub summary: String,
}

/// The value a `CommitRow` holds.
pub struct CommitRowView {
    pub hash: Seq<char>,
    pub short_hash: Seq<char>,
    pub author_name: Seq<char>,
    pub author_email: Seq<char>,
    pub timestamp: i64,
    pub utc_offset: i32,
    pub summary: Seq<char>,
}

impl View for CommitRow {
    type V = CommitRowView;

    open spec fn view(&self) -> CommitRowView {
        CommitRowView {
            hash: self.hash@,
            short_hash: self.short_hash@,
            author_name: self.author_name@,
            author_email: self.author_email@,
            timestamp: self.timestamp,
            utc_offset: self.utc_offset,
            summary: self.summary@,
        }
    }
}

/// One file changed in one commit.
#[derive(Debug, Clone)]
pub struct FileDeltaRow {
    /// The number of the commit
    pub commit_id: usize,
    pub file_path: String,
    /// The change's one-letter symbol
    pub change_type: String,
}

/// The value a `FileDeltaRow` holds.
pub struct FileDeltaRowView {
    pub commit_id: usize,
    pub file_path: Seq<char>,
    pub change_type: Seq<char>,
}

impl View for FileDeltaRow {
    type V = FileDeltaRowView;

    open spec fn view(&self) -> FileDeltaRowView {
        FileDeltaRowView {
            commit_id: self.commit_id,
            file_path: self.file_path@,
            change_type: self.change_type@,
        }
    }
}

/// One function changed in one commit.
#[derive(Debug, Clone)]
pub struct FunctionDeltaRow {
    /// The number of the commit
    pub commit_id: usize,
    pub file_path: String,
    pub function_name: String,
    pub start_line: u32,
    pub end_line: u32,
}

/// The value a `FunctionDeltaRow` holds.
pub struct FunctionDeltaRowView {
    pub commit_id: usize,
    pub file_path: Seq<char>,
    pub function_name: Seq<char>,
    pub start_line: u32,
    pub end_line: u32,
}

impl View for FunctionDeltaRow {
    type V = FunctionDeltaRowView;

    open spec fn view(&self) -> FunctionDeltaRowView {
        FunctionDeltaRowView {
            commit_id: self.commit_id,
            file_path: self.file_path@,
            function_name: self.function_name@,
            start_line: self.start_line,
            end_line: self.end_line,
        }
    }
}

/// Commit history and deltas for temporal coupling analysis.
pub struct Database {
    pub commits: Vec<CommitRow>,
    pub file_deltas: Vec<FileDeltaRow>,
    pub function_deltas: Vec<FunctionDeltaRow>,
}

/// The value a `Database` holds.
pub struct DatabaseView {
    pub commits: Seq<CommitRowView>,
    pub file_deltas: Seq<FileDeltaRowView>,
    pub function_deltas: Seq<FunctionDeltaRowView>,
}

impl View for Database {
    type V = DatabaseView;

    open spec fn view(&self) -> DatabaseView {
        DatabaseView {
            commits: self.commits@.map_values(|c: CommitRow| c@),
            file_deltas: self.file_deltas@.map_values(|d: FileDeltaRow| d@),
            function_deltas: self.function_deltas@.map_values(|d: FunctionDeltaRow| d@),
        }
    }
}

/// Hashes are distinct, and every delta names a stored commit.
pub open spec fn well_formed(d: DatabaseView) -> bool {
    &&& forall|i: int, j: int|
        0 <= i < j < d.commits.len() ==> d.commits[i].hash != d.commits[j].hash
    &&& forall|i: int|
        0 <= i < d.file_deltas.len() ==> (#[trigger] d.file_deltas[i]).commit_id
            < d.commits.len()
    &&& forall|i: int|
        0 <= i < d.function_deltas.len() ==> (#[trigger] d.function_deltas[i]).commit_id
            < d.commits.len()
}

/// The file deltas as `(commit, path)` rows.
pub open spec fn file_rows(d: DatabaseView) -> Seq<(usize, Seq<char>)> {
    d.file_deltas.map_values(|r: FileDeltaRowView| (r.commit_id, r.file_path))
}

/// The function deltas as `(commit, (path, function name))` rows.
pub open spec fn function_rows(d: DatabaseView) -> Seq<(usize, (Seq<char>, Seq<char>))> {
    d.function_deltas.map_values(
        |r: FunctionDeltaRowView| (r.commit_id, (r.file_path, r.function_name)),
    )
}

/// The values of a list of string pairs.
pub open spec fn pair_views(v: Seq<(String, String)>) -> Seq<(Seq<char>, Seq<char>)> {
    v.map_values(|p: (String, String)| (p.0@, p.1@))
}

// ─── Ingestion ───────────────────────────────────────────────────────────────

/// Some stored commit has hash `h`.
pub open spec fn has_hash(commits: Seq<CommitRowView>, h: Seq<char>) -> bool {
    exists|i: int| 0 <= i < commits.len() && (#[trigger] commits[i]).hash == h
}

/// The number of the stored commit with hash `h`.
pub open spec fn hash_id(commits: Seq<CommitRowView>, h: Seq<char>) -> int {
    choose|i: int| 0 <= i < commits.len() && (#[trigger] commits[i]).hash == h
}

/// The row stored for a commit record.
pub open spec fn commit_row_of(c: CommitRecord) -> CommitRowView {
    CommitRowView {
        hash: c.hash@,
        short_hash: c.short_hash@,
        author_name: c.author_name@,
        author_email: c.author_email@,
        timestamp: c.timestamp,
        utc_offset: c.utc_offset,
        summary: c.summary@,
    }
}

/// The rows stored for the file deltas of commit `id`.
pub open spec fn delta_rows(id: usize, deltas: Seq<FileDeltaView>) -> Seq<FileDeltaRowView> {
    deltas.map_values(
        |x: FileDeltaView|
            FileDeltaRowView {
                commit_id: id,
                file_path: x.path,
                change_type: change_symbol(x.change_type),
            },
    )
}

/// Storing one commit record: its row unless a commit with its hash is
/// stored already, and a row for each of its file deltas under the number
/// of the commit with its hash.
pub open spec fn ingest_one(d: DatabaseView, c: CommitRecord) -> DatabaseView {
    if has_hash(d.commits, c.hash@) {
        DatabaseView {
            commits: d.commits,
            file_deltas: d.file_deltas + delta_rows(
                hash_id(d.commits, c.hash@) as usize,
                file_delta_views(c.file_deltas@),
            ),
            function_deltas: d.function_deltas,
        }
    } else {
        DatabaseView {
            commits: d.commits.push(commit_row_of(c)),
            file_deltas: d.file_deltas + delta_rows(
                d.commits.len() as usize,
                file_delta_views(c.file_deltas@),
            ),
            function_deltas: d.function_deltas,
        }
    }
}

/// Storing a list of commit records in order.
pub open spec fn ingest_all(d: DatabaseView, cs: Seq<CommitRecord>) -> DatabaseView
    decreases cs.len(),
{
    if cs.len() == 0 {
        d
    } else {
        ingest_one(ingest_all(d, cs.drop_last()), cs.last())
    }
}

/// The rows stored for the function deltas `(path, name, start, end)` of
/// commit `id`.
pub open spec fn function_delta_rows(id: usize, deltas: Seq<(String, String, u32, u32)>) -> Seq<
    FunctionDeltaRowView,
> {
    deltas.map_values(
        |x: (String, String, u32, u32)|
            FunctionDeltaRowView {
                commit_id: id,
                file_path: x.0@,
                function_name: x.1@,
                start_line: x.2,
                end_line: x.3,
            },
    )
}

/// Why storing function deltas failed.
#[derive(Debug, Clone, Copy, PartialEq, Eq, Structural)]
pub enum DbError {
    /// No stored commit has the given hash.
    CommitNotFound,
}

impl Database {
    /// The store's invariant.
    pub open spec fn wf(&self) -> bool {
        well_formed(self@)
    }

    /// An empty store.
    pub fn new() -> (db: Database)
        ensures
            db.wf(),
            db@.commits.len() == 0,
            db@.file_deltas.len() == 0,
            db@.function_deltas.len() == 0,
            db@ == crate::db::laws::empty_store(),
    {
        let db = Database { commits: Vec::new(), file_deltas: Vec::new(), function_deltas: Vec::new() };
        assert(db@.commits =~= Seq::<CommitRowView>::empty());
        assert(db@.file_deltas =~= Seq::<FileDeltaRowView>::empty());
        assert(db@.function_deltas =~= Seq::<FunctionDeltaRowView>::empty());
        db
    }

    /// The number of the stored commit with the given hash, if any.
    pub fn commit_id_of(&self, hash: &String) -> (r: Option<usize>)
        requires
            self.wf(),
        ensures
            r is Some <==> has_hash(self@.commits, hash@),
            r matches Some(id) ==> id == hash_id(self@.commits, hash@) && id
                < self@.commits.len(),
    {
        let mut i: usize = 0;
        while i < self.commits.len()
            invariant
                0 <= i <= self@.commits.len(),
                self.wf(),
                forall|j: int| 0 <= j < i ==> self@.commits[j].hash != hash@,
            decreases self.commits.len() - i,
        {
            if self.commits[i].hash == *hash {
                proof {
                    assert(self@.commits[i as int].hash == hash@);
                    assert(has_hash(self@.commits, hash@));
                    let k = hash_id(self@.commits, hash@);
                    assert(self@.commits[k].hash == hash@);
                    if k < i as int {
                        assert(self@.commits[k].hash != self@.commits[i as int].hash);
                    } else if k > i as int {
                        assert(self@.commits[i as int].hash != self@.commits[k].hash);
                    }
                }
                return Some(i);
            }
            i += 1;
        }
        None
    }

    /// Stores a batch of commit records in order (see `ingest_one`): a
    /// commit whose hash is stored already keeps its row, and its file
    /// deltas are added under that row's number.
    pub fn ingest_commits(&mut self, commits: &Vec<CommitRecord>)
        requires
            old(self).wf(),
        ensures
            final(self).wf(),
            final(self)@ == ingest_all(old(self)@, commits@),
    {
        let mut k: usize = 0;
        while k < commits.len()
            invariant
                0 <= k <= commits@.len(),
                self.wf(),
                self@ == ingest_all(old(self)@, commits@.take(k as int)),
            decreases commits.len() - k,
        {
            let commit = &commits[k];
            assert(commits@.take(k + 1).drop_last() =~= commits@.take(k as int));
            let ghost before = self@;
            let id = match self.commit_id_of(&commit.hash) {
                Some(id) => id,
                None => {
                    self.commits.push(
                        CommitRow {
                            hash: commit.hash.clone(),
                            short_hash: commit.short_hash.clone(),
                            author_name: commit.author_name.clone(),
                            author_email: commit.author_email.clone(),
                            timestamp: commit.timestamp,
                            utc_offset: commit.utc_offset,
                            summary: commit.summary.clone(),
                        },
                    );
                    proof {
                        assert(self@.commits =~= before.commits.push(commit_row_of(*commit)));
                    }
                    self.commits.len() - 1
                },
            };
            let ghost mid = self@;
            let mut j: usize = 0;
            while j < commit.file_deltas.len()
                invariant
                    0 <= j <= commit.file_deltas@.len(),
                    id < self@.commits.len(),
                    self@.commits == mid.commits,
                    self@.function_deltas == mid.function_deltas,
                    self@.file_deltas == before.file_deltas + delta_rows(
                        id,
                        file_delta_views(commit.file_deltas@).take(j as int),
                    ),
                    well_formed(before),
                    forall|i: int|
                        0 <= i < before.file_deltas.len() ==> (#[trigger] before.file_deltas[i]).commit_id
                            < self@.commits.len(),
                decreases commit.file_deltas.len() - j,
            {
                let delta = &commit.file_deltas[j];
                let ghost prev = self@.file_deltas;
                let row = FileDeltaRow {
                    commit_id: id,
                    file_path: delta.path.clone(),
                    change_type: string_from_str(delta.change_type.symbol()),
                };
                assert(row@ == (FileDeltaRowView {
                    commit_id: id,
                    file_path: delta@.path,
                    change_type: change_symbol(delta@.change_type),
                }));
                self.file_deltas.push(row);
                proof {
                    assert(self@.file_deltas =~= prev.push(row@));
                    assert(delta_rows(id, file_delta_views(commit.file_deltas@).take(j as int).push(delta@))
                        =~= delta_rows(id, file_delta_views(commit.file_deltas@).take(j as int)).push(row@));
                    assert(file_delta_views(commit.file_deltas@).take(j + 1) =~= file_delta_views(
                        commit.file_deltas@,
                    ).take(j as int).push(delta@));
                    assert(self@.file_deltas =~= before.file_deltas + delta_rows(
                        id,
                        file_delta_views(commit.file_deltas@).take(j + 1),
                    ));
                }
                j += 1;
            }
            proof {
                assert(file_delta_views(commit.file_deltas@).take(
                    commit.file_deltas@.len() as int,
                ) =~= file_delta_views(commit.file_deltas@));
                assert(commits@.take(k + 1).last() == *commit);
                assert forall|i: int, j2: int|
                    0 <= i < j2 < self@.commits.len() implies self@.commits[i].hash
                    != self@.commits[j2].hash by {
                    if j2 == self@.commits.len() - 1 && self@.commits.len() > before.commits.len() {
                        assert(!has_hash(before.commits, commit.hash@));
                        assert(before.commits[i] == self@.commits[i]);
                    }
                }
                assert forall|i: int| 0 <= i < self@.file_deltas.len() implies (
                #[trigger] self@.file_deltas[i]).commit_id < self@.commits.len() by {
                    if i >= before.file_deltas.len() {
                        assert(self@.file_deltas[i] == delta_rows(
                            id,
                            file_delta_views(commit.file_deltas@),
                        )[i - before.file_deltas.len()]);
                    }
                }
                assert forall|i: int| 0 <= i < self@.function_deltas.len() implies (
                #[trigger] self@.function_deltas[i]).commit_id < self@.commits.len() by {
                    assert(self@.function_deltas[i] == before.function_deltas[i]);
                }
                assert(self@ == ingest_one(before, *commit));
            }
            k += 1;
        }
        assert(commits@.take(commits@.len() as int) =~= commits@);
    }

    /// Stores the function deltas `(path, name, start line, end line)` of
    /// the commit with the given hash; fails, storing nothing, when no
    /// stored commit has that hash.
    pub fn ingest_function_deltas(
        &mut self,
        commit_hash: &str,
        function_deltas: &Vec<(String, String, u32, u32)>,
    ) -> (r: Result<(), DbError>)
        requires
            old(self).wf(),
        ensures
            final(self).wf(),
            has_hash(old(self)@.commits, commit_hash@) ==> (r is Ok) && final(self)@ == (DatabaseView {
                commits: old(self)@.commits,
                file_deltas: old(self)@.file_deltas,
                function_deltas: old(self)@.function_deltas + function_delta_rows(
                    hash_id(old(self)@.commits, commit_hash@) as usize,
                    function_deltas@,
                ),
            }),
            !has_hash(old(self)@.commits, commit_hash@) ==> (r == Err::<(), DbError>(
                DbError::CommitNotFound,
            )) && final(self)@ == old(self)@,
    {
        let hash = string_from_str(commit_hash);
        let id = match self.commit_id_of(&hash) {
            Some(id) => id,
            None => return Err(DbError::CommitNotFound),
        };
        let ghost before = self@;
        let mut j: usize = 0;
        while j < function_deltas.len()
            invariant
                0 <= j <= function_deltas@.len(),
                id < before.commits.len(),
                well_formed(before),
                self@.commits == before.commits,
                self@.file_deltas == before.file_deltas,
                self@.function_deltas == before.function_deltas + function_delta_rows(
                    id,
                    function_deltas@.take(j as int),
                ),
            decreases function_deltas.len() - j,
        {
            let (path, name, start, end) = &function_deltas[j];
            let ghost prev = self@.function_deltas;
            let row = FunctionDeltaRow {
                commit_id: id,
                file_path: path.clone(),
                function_name: name.clone(),
                start_line: *start,
                end_line: *end,
            };
            self.function_deltas.push(row);
            proof {
                assert(self@.function_deltas =~= prev.push(row@));
                assert(function_delta_rows(id, function_deltas@.take(j as int).push(function_deltas@[j as int]))
                    =~= function_delta_rows(id, function_deltas@.take(j as int)).push(row@));
                assert(function_deltas@.take(j + 1) =~= function_deltas@.take(j as int).push(
                    function_deltas@[j as int],
                ));
                assert(self@.function_deltas =~= before.function_deltas + function_delta_rows(
                    id,
                    function_deltas@.take(j + 1),
                ));
            }
            j += 1;
        }
        proof {
            assert(function_deltas@.take(function_deltas@.len() as int) =~= function_deltas@);
            assert forall|i: int| 0 <= i < self@.function_deltas.len() implies (
            #[trigger] self@.function_deltas[i]).commit_id < self@.commits.len() by {
                if i < before.function_deltas.len() {
                    assert(self@.function_deltas[i] == before.function_deltas[i]);
                } else {
                    assert(self@.function_deltas[i] == function_delta_rows(id, function_deltas@)[i
                        - before.function_deltas.len()]);
                }
            }
            assert forall|i: int| 0 <= i < self@.file_deltas.len() implies (
            #[trigger] self@.file_deltas[i]).commit_id < self@.commits.len() by {
                assert(self@.file_deltas[i] == before.file_deltas[i]);
            }
        }
        Ok(())
    }

    /// The distinct file paths of the file deltas in order of first
    /// appearance, and each delta as a `(commit, path number)` event.
    pub fn file_events(&self) -> (r: (Vec<String>, Vec<(usize, usize)>))
        requires
            self.wf(),
        ensures
            interns(file_rows(self@), string_views(r.0@), r.1@),
    {
        let mut names: Vec<String> = Vec::new();
        let mut events: Vec<(usize, usize)> = Vec::new();
        let ghost rows = file_rows(self@);
        let mut i: usize = 0;
        while i < self.file_deltas.len()
            invariant
                0 <= i <= self@.file_deltas.len(),
                rows == file_rows(self@),
                interns(rows.take(i as int), string_views(names@), events@),
            decreases self.file_deltas.len() - i,
        {
            let row = &self.file_deltas[i];
            let mut found: Option<usize> = None;
            let mut j: usize = 0;
            while j < names.len()
                invariant
                    0 <= j <= names@.len(),
                    found matches Some(e) ==> e < names@.len() && names@[e as int]@
                        == row.file_path@,
                    found is None ==> forall|q: int| 0 <= q < j ==> names@[q]@ != row.file_path@,
                decreases names.len() - j,
            {
                if found.is_none() && names[j] == row.file_path {
                    found = Some(j);
                }
                j += 1;
            }
            let ghost old_names = string_views(names@);
            let ghost old_events = events@;
            let e = match found {
                Some(e) => e,
                None => {
                    names.push(row.file_path.clone());
                    names.len() - 1
                },
            };
            events.push((row.commit_id, e));
            proof {
                let nv = string_views(names@);
                if found is None {
                    assert(nv =~= old_names.push(row.file_path@));
                } else {
                    assert(nv =~= old_names);
                }
                assert(nv[e as int] == row.file_path@);
                assert(rows.take(i + 1) =~= rows.take(i as int).push(rows[i as int]));
                assert(rows[i as int] == (row.commit_id, row.file_path@));
                assert forall|a: int, b: int| 0 <= a < b < nv.len() implies nv[a] != nv[b] by {
                    if b == nv.len() - 1 && nv.len() > old_names.len() {
                        assert(nv[a] == old_names[a]);
                    } else {
                        assert(nv[a] == old_names[a]);
                        assert(nv[b] == old_names[b]);
                    }
                }
                assert forall|q: int| 0 <= q < events@.len() implies (#[trigger] events@[q]).0
                    == rows.take(i + 1)[q].0 && events@[q].1 < nv.len() && nv[events@[q].1 as int]
                    == rows.take(i + 1)[q].1 by {
                    if q < old_events.len() {
                        assert(events@[q] == old_events[q]);
                        assert(old_events[q].1 < old_names.len());
                        assert(nv[events@[q].1 as int] == old_names[old_events[q].1 as int]);
                    }
                }
                assert forall|x: int| 0 <= x < nv.len() implies #[trigger] number_used(events@, x) by {
                    if x < old_names.len() {
                        assert(old_names[x] == nv[x]);
                        assert(number_used(old_events, x));
                        let q = choose|q: int|
                            0 <= q < old_events.len() && (#[trigger] old_events[q]).1 == x;
                        assert(events@[q] == old_events[q]);
                    } else {
                        assert(events@[events@.len() - 1].1 == x);
                    }
                }
                assert(events@.len() == rows.take(i + 1).len());
                assert(interns(rows.take(i + 1), nv, events@));
            }
            i += 1;
        }
        assert(rows.take(rows.len() as int) =~= rows);
        (names, events)
    }

    /// The distinct `(path, function name)` keys of the function deltas in
    /// order of first appearance, and each delta as a `(commit, key number)`
    /// event.
    pub fn function_events(&self) -> (r: (Vec<(String, String)>, Vec<(usize, usize)>))
        requires
            self.wf(),
        ensures
            interns(function_rows(self@), pair_views(r.0@), r.1@),
    {
        let mut names: Vec<(String, String)> = Vec::new();
        let mut events: Vec<(usize, usize)> = Vec::new();
        let ghost rows = function_rows(self@);
        let mut i: usize = 0;
        while i < self.function_deltas.len()
            invariant
                0 <= i <= self@.function_deltas.len(),
                rows == function_rows(self@),
                interns(rows.take(i as int), pair_views(names@), events@),
            decreases self.function_deltas.len() - i,
        {
            let row = &self.function_deltas[i];
            let mut found: Option<usize> = None;
            let mut j: usize = 0;
            while j < names.len()
                invariant
                    0 <= j <= names@.len(),
                    found matches Some(e) ==> e < names@.len() && names@[e as int].0@
                        == row.file_path@ && names@[e as int].1@ == row.function_name@,
                    found is None ==> forall|q: int|
                        0 <= q < j ==> !(names@[q].0@ == row.file_path@ && names@[q].1@
                            == row.function_name@),
                decreases names.len() - j,
            {
                if found.is_none() && names[j].0 == row.file_path && names[j].1
                    == row.function_name {
                    found = Some(j);
                }
                j += 1;
            }
            let ghost old_names = pair_views(names@);
            let ghost old_events = events@;
            let e = match found {
                Some(e) => e,
                None => {
                    names.push((row.file_path.clone(), row.function_name.clone()));
                    names.len() - 1
                },
            };
            events.push((row.commit_id, e));
            proof {
                let nv = pair_views(names@);
                if found is None {
                    assert(nv =~= old_names.push((row.file_path@, row.function_name@)));
                } else {
                    assert(nv =~= old_names);
                }
                assert(nv[e as int] == (row.file_path@, row.function_name@));
                assert(rows.take(i + 1) =~= rows.take(i as int).push(rows[i as int]));
                assert(rows[i as int] == (row.commit_id, (row.file_path@, row.function_name@)));
                assert forall|a: int, b: int| 0 <= a < b < nv.len() implies nv[a] != nv[b] by {
                    if b == nv.len() - 1 && nv.len() > old_names.len() {
                        assert(nv[a] == old_names[a]);
                    } else {
                        assert(nv[a] == old_names[a]);
                        assert(nv[b] == old_names[b]);
                    }
                }
                assert forall|q: int| 0 <= q < events@.len() implies (#[trigger] events@[q]).0
                    == rows.take(i + 1)[q].0 && events@[q].1 < nv.len() && nv[events@[q].1 as int]
                    == rows.take(i + 1)[q].1 by {
                    if q < old_events.len() {
                        assert(events@[q] == old_events[q]);
                        assert(old_events[q].1 < old_names.len());
                        assert(nv[events@[q].1 as int] == old_names[old_events[q].1 as int]);
                    }
                }
                assert forall|x: int| 0 <= x < nv.len() implies #[trigger] number_used(events@, x) by {
                    if x < old_names.len() {
                        assert(old_names[x] == nv[x]);
                        assert(number_used(old_events, x));
                        let q = choose|q: int|
                            0 <= q < old_events.len() && (#[trigger] old_events[q]).1 == x;
                        assert(events@[q] == old_events[q]);
                    } else {
                        assert(events@[events@.len() - 1].1 == x);
                    }
                }
                assert(events@.len() == rows.take(i + 1).len());
                assert(interns(rows.take(i + 1), nv, events@));
            }
            i += 1;
        }
        assert(rows.take(rows.len() as int) =~= rows);
        (names, events)
    }
}

} // verus!
