//! Summaries of the coupling store: its statistics, the files and the
//! functions changed most often, and the commits that touched a file.

use vstd::prelude::*;

use crate::analyzer::string_views;
use crate::db::{file_rows, function_rows, pair_views, well_formed, Database, DatabaseView};
use crate::db::count::{count_true, count_trues, lemma_count_true_ext};
use crate::db::events::{events_in, occurrence_counts};
use crate::db::keys::{
    count_keys, interns, is_count_ranking, key_count, lemma_named_count_ranking, lists_counted,
    named_counts, number_used,
};
use crate::db::rank::{is_int_ranking, rank_by_int};
use crate::ratio::Ratio;
use crate::text::string_from_str;

verus! {

broadcast use vstd::string::group_string_axioms;

/// Aggregate statistics about the store.
#[derive(Debug, Clone)]
pub struct DatabaseStats {
    pub total_commits: usize,
    pub total_deltas: usize,
    pub unique_files: usize,
    pub unique_authors: usize,
    /// File deltas per commit; zero over zero commits
    pub avg_files_per_commit: Ratio,
}

/// A tracked file with its number of commits and of changes.
#[derive(Debug, Clone)]
pub struct FileEntry {
    pub file_path: String,
    /// Distinct commits that touched the file
    pub commit_count: usize,
    /// File deltas of the file
    pub change_count: usize,
}

/// A "hottest function": one of the most frequently modified.
#[derive(Debug, Clone)]
pub struct HotFunction {
    pub function_name: String,
    pub file_path: String,
    pub commit_count: usize,
}

/// A commit that touched a given file.
#[derive(Debug, Clone)]
pub struct FileCommitInfo {
    pub hash: String,
    pub short_hash: String,
    pub author_name: String,
    pub timestamp: i64,
    pub summary: String,
    pub change_type: String,
}

/// The file paths of the file deltas.
pub open spec fn delta_paths(d: DatabaseView) -> Seq<Seq<char>> {
    d.file_deltas.map_values(|r: crate::db::FileDeltaRowView| r.file_path)
}

/// The author names of the commits.
pub open spec fn author_names(d: DatabaseView) -> Seq<Seq<char>> {
    d.commits.map_values(|c: crate::db::CommitRowView| c.author_name)
}

/// The number of file deltas of the file at `p`.
pub open spec fn change_count(d: DatabaseView, p: Seq<char>) -> nat {
    count_true(Seq::new(d.file_deltas.len(), |i: int| d.file_deltas[i].file_path == p))
}

/// The value of a file entry: `(path, commits, changes)`.
pub open spec fn file_entry_views(v: Seq<FileEntry>) -> Seq<(Seq<char>, usize, usize)> {
    v.map_values(|f: FileEntry| (f.file_path@, f.commit_count, f.change_count))
}

/// The value of a hot function: `((path, name), commits)`.
pub open spec fn hot_function_views(v: Seq<HotFunction>) -> Seq<((Seq<char>, Seq<char>), usize)> {
    v.map_values(|h: HotFunction| ((h.file_path@, h.function_name@), h.commit_count))
}

/// The value of a file's commit: hash, short hash, author, time, summary
/// and the change's symbol.
pub struct FileCommitInfoView {
    pub hash: Seq<char>,
    pub short_hash: Seq<char>,
    pub author_name: Seq<char>,
    pub timestamp: i64,
    pub summary: Seq<char>,
    pub change_type: Seq<char>,
}

impl View for FileCommitInfo {
    type V = FileCommitInfoView;

    open spec fn view(&self) -> FileCommitInfoView {
        FileCommitInfoView {
            hash: self.hash@,
            short_hash: self.short_hash@,
            author_name: self.author_name@,
            timestamp: self.timestamp,
            summary: self.summary@,
            change_type: self.change_type@,
        }
    }
}

/// The commit information of file delta `j`: its commit's fields and its
/// change symbol.
pub open spec fn commit_info_of(d: DatabaseView, j: int) -> FileCommitInfoView {
    let c = d.commits[d.file_deltas[j].commit_id as int];
    FileCommitInfoView {
        hash: c.hash,
        short_hash: c.short_hash,
        author_name: c.author_name,
        timestamp: c.timestamp,
        summary: c.summary,
        change_type: d.file_deltas[j].change_type,
    }
}

/// `idx` lists each file delta of the file at `p` once, by descending time
/// of its commit.
pub open spec fn is_commit_listing(d: DatabaseView, p: Seq<char>, idx: Seq<usize>) -> bool {
    &&& forall|i: int, k: int| 0 <= i < k < idx.len() ==> idx[i] != idx[k]
    &&& forall|i: int|
        0 <= i < idx.len() ==> (#[trigger] idx[i]) < d.file_deltas.len()
            && d.file_deltas[idx[i] as int].file_path == p
    &&& forall|j: usize|
        j < d.file_deltas.len() && (#[trigger] d.file_deltas[j as int]).file_path == p
            ==> idx.contains(j)
    &&& forall|i: int, k: int|
        0 <= i < k < idx.len() ==> commit_info_of(d, idx[i] as int).timestamp >= commit_info_of(
            d,
            idx[k] as int,
        ).timestamp
}

/// The distinct values of a sequence, in order of first appearance.
fn distinct_strings(v: &Vec<String>) -> (r: Vec<String>)
    ensures
        string_views(r@).no_duplicates(),
        string_views(r@).to_set() == string_views(v@).to_set(),
{
    let mut r: Vec<String> = Vec::new();
    let mut i: usize = 0;
    while i < v.len()
        invariant
            0 <= i <= v@.len(),
            string_views(r@).no_duplicates(),
            forall|x: Seq<char>|
                string_views(r@).contains(x) <==> string_views(v@.take(i as int)).contains(x),
        decreases v.len() - i,
    {
        let mut found = false;
        let mut j: usize = 0;
        while j < r.len()
            invariant
                0 <= j <= r@.len(),
                found == exists|q: int| 0 <= q < j && r@[q]@ == v@[i as int]@,
                i < v@.len(),
            decreases r.len() - j,
        {
            if r[j] == v[i] {
                found = true;
            }
            j += 1;
        }
        let ghost before = string_views(r@);
        let ghost item = v@[i as int]@;
        if !found {
            r.push(v[i].clone());
            assert(string_views(r@) =~= before.push(item));
        }
        proof {
            let upto = string_views(v@.take(i as int));
            let upto1 = string_views(v@.take(i + 1));
            assert(upto1 =~= upto.push(item));
            let now = string_views(r@);
            if found {
                let q = choose|q: int| 0 <= q < r@.len() && r@[q]@ == item;
                assert(before[q] == item);
            }
            assert forall|x: Seq<char>| now.contains(x) <==> upto1.contains(x) by {
                if now.contains(x) {
                    let w = choose|w: int| 0 <= w < now.len() && now[w] == x;
                    if w < before.len() {
                        assert(before[w] == x);
                        assert(before.contains(x));
                        assert(upto.contains(x));
                        let q = choose|q: int| 0 <= q < upto.len() && upto[q] == x;
                        assert(upto1[q] == x);
                    } else {
                        assert(upto1[upto1.len() - 1] == x);
                    }
                }
                if upto1.contains(x) {
                    let q = choose|q: int| 0 <= q < upto1.len() && upto1[q] == x;
                    if q < upto.len() {
                        assert(upto[q] == x);
                        assert(upto.contains(x));
                        assert(before.contains(x));
                        let w = choose|w: int| 0 <= w < before.len() && before[w] == x;
                        assert(now[w] == x);
                    } else if found {
                        assert(before.contains(x));
                        let w = choose|w: int| 0 <= w < before.len() && before[w] == x;
                        assert(now[w] == x);
                    } else {
                        assert(now[now.len() - 1] == x);
                    }
                }
            }
            if !found {
                assert forall|a: int, b: int|
                    0 <= a < now.len() && 0 <= b < now.len() && a != b implies now[a] != now[b] by {
                    if a == now.len() - 1 {
                        assert(now[b] == before[b]);
                    } else if b == now.len() - 1 {
                        assert(now[a] == before[a]);
                    } else {
                        assert(now[a] == before[a]);
                        assert(now[b] == before[b]);
                    }
                }
            }
        }
        i += 1;
    }
    assert(v@.take(v@.len() as int) =~= v@);
    assert(string_views(r@).to_set() =~= string_views(v@).to_set());
    r
}

/// The `(path, commits)` part of file entries.
pub open spec fn file_entry_counts(v: Seq<FileEntry>) -> Seq<(Seq<char>, usize)> {
    v.map_values(|f: FileEntry| (f.file_path@, f.commit_count))
}

/// For each event, whether it is of entity `e`.
pub open spec fn number_mask(events: Seq<(usize, usize)>, e: int) -> Seq<bool> {
    Seq::new(events.len(), |i: int| events[i].1 == e)
}

/// The number of events of entity `e`.
pub open spec fn number_count(events: Seq<(usize, usize)>, e: int) -> nat {
    count_true(number_mask(events, e))
}

/// The number of events of entity `e`.
fn number_count_of(events: &Vec<(usize, usize)>, e: usize) -> (r: usize)
    ensures
        r == number_count(events@, e as int),
{
    let mut flags: Vec<bool> = Vec::new();
    let mut i: usize = 0;
    while i < events.len()
        invariant
            0 <= i <= events@.len(),
            flags@ == Seq::new(i as nat, |q: int| events@[q].1 == e),
        decreases events.len() - i,
    {
        flags.push(events[i].1 == e);
        assert(flags@ =~= Seq::new((i + 1) as nat, |q: int| events@[q].1 == e));
        i += 1;
    }
    assert(flags@ =~= number_mask(events@, e as int));
    count_trues(&flags)
}

/// The changes of a numbered path are the events of its number.
proof fn lemma_change_count_interned(
    d: DatabaseView,
    names: Seq<Seq<char>>,
    events: Seq<(usize, usize)>,
    e: int,
)
    requires
        interns(file_rows(d), names, events),
        0 <= e < names.len(),
    ensures
        change_count(d, names[e]) == number_count(events, e),
{
    let a = Seq::new(d.file_deltas.len(), |i: int| d.file_deltas[i].file_path == names[e]);
    let b = number_mask(events, e);
    assert forall|i: int| 0 <= i < a.len() implies a[i] == b[i] by {
        assert(file_rows(d)[i].1 == d.file_deltas[i].file_path);
        assert(names[events[i].1 as int] == file_rows(d)[i].1);
        let x = events[i].1 as int;
        assert(x < names.len());
        if x < e {
            assert(names[x] != names[e]);
        } else if e < x {
            assert(names[e] != names[x]);
        }
    }
    assert(a.len() == b.len());
    lemma_count_true_ext(a, b);
    assert(count_true(a) == change_count(d, names[e]));
    assert(count_true(b) == number_count(events, e));
}

/// The counts as ranking keys, in a vector.
fn keys_of_counts(counts: &Vec<usize>) -> (r: Vec<i128>)
    ensures
        r@ == count_keys(counts@),
{
    let mut r: Vec<i128> = Vec::new();
    let mut i: usize = 0;
    while i < counts.len()
        invariant
            0 <= i <= counts@.len(),
            r@ == count_keys(counts@).take(i as int),
        decreases counts.len() - i,
    {
        r.push(counts[i] as i128);
        assert(r@ =~= count_keys(counts@).take(i + 1));
        i += 1;
    }
    assert(count_keys(counts@).take(counts@.len() as int) =~= count_keys(counts@));
    r
}

impl Database {
    /// Statistics: the numbers of commits and of file deltas, of distinct
    /// file paths and of distinct author names, and the file deltas per
    /// commit (zero when there is no commit).
    pub fn get_stats(&self) -> (r: DatabaseStats)
        requires
            self.wf(),
        ensures
            r.total_commits == self@.commits.len(),
            r.total_deltas == self@.file_deltas.len(),
            r.unique_files == delta_paths(self@).to_set().len(),
            r.unique_authors == author_names(self@).to_set().len(),
            self@.commits.len() > 0 ==> r.avg_files_per_commit == (Ratio {
                num: self@.file_deltas.len() as u64,
                den: self@.commits.len() as u64,
            }),
            self@.commits.len() == 0 ==> r.avg_files_per_commit == (Ratio { num: 0, den: 1 }),
    {
        let mut paths: Vec<String> = Vec::new();
        let mut i: usize = 0;
        while i < self.file_deltas.len()
            invariant
                0 <= i <= self@.file_deltas.len(),
                string_views(paths@) == delta_paths(self@).take(i as int),
            decreases self.file_deltas.len() - i,
        {
            let ghost before = string_views(paths@);
            paths.push(self.file_deltas[i].file_path.clone());
            assert(string_views(paths@) =~= before.push(self@.file_deltas[i as int].file_path));
            assert(delta_paths(self@).take(i + 1) =~= delta_paths(self@).take(i as int).push(
                self@.file_deltas[i as int].file_path,
            ));
            i += 1;
        }
        let mut authors: Vec<String> = Vec::new();
        let mut k: usize = 0;
        while k < self.commits.len()
            invariant
                0 <= k <= self@.commits.len(),
                string_views(authors@) == author_names(self@).take(k as int),
            decreases self.commits.len() - k,
        {
            let ghost before = string_views(authors@);
            authors.push(self.commits[k].author_name.clone());
            assert(string_views(authors@) =~= before.push(self@.commits[k as int].author_name));
            assert(author_names(self@).take(k + 1) =~= author_names(self@).take(k as int).push(
                self@.commits[k as int].author_name,
            ));
            k += 1;
        }
        assert(delta_paths(self@).take(self@.file_deltas.len() as int) =~= delta_paths(self@));
        assert(author_names(self@).take(self@.commits.len() as int) =~= author_names(self@));
        let files = distinct_strings(&paths);
        let people = distinct_strings(&authors);
        proof {
            string_views(files@).unique_seq_to_set();
            string_views(people@).unique_seq_to_set();
        }
        let avg = if self.commits.len() > 0 {
            Ratio::new(self.file_deltas.len() as u64, self.commits.len() as u64)
        } else {
            Ratio::new(0, 1)
        };
        DatabaseStats {
            total_commits: self.commits.len(),
            total_deltas: self.file_deltas.len(),
            unique_files: files.len(),
            unique_authors: people.len(),
            avg_files_per_commit: avg,
        }
    }

    /// All tracked files with the number of commits that touched each and
    /// its number of file deltas, by descending number of commits.
    pub fn list_files(&self) -> (r: Vec<FileEntry>)
        requires
            self.wf(),
        ensures
            is_count_ranking(
                file_rows(self@),
                self@.commits.len(),
                r@.len() as nat,
                file_entry_counts(r@),
            ),
            forall|p: Seq<char>|
                key_count(file_rows(self@), p, self@.commits.len()) > 0 ==> lists_counted(
                    file_entry_counts(r@),
                    p,
                ),
            forall|i: int|
                0 <= i < r@.len() ==> (#[trigger] r@[i]).change_count == change_count(
                    self@,
                    r@[i].file_path@,
                ),
    {
        let (names, events) = self.file_events();
        let ghost rows = file_rows(self@);
        let ghost nv = string_views(names@);
        let ghost n = self@.commits.len();
        proof {
            crate::db::queries::lemma_file_rows_in(self@);
            crate::db::queries::lemma_events_in(self@, rows, nv, events@);
        }
        let counts = occurrence_counts(&events, self.commits.len(), names.len());
        let keys = keys_of_counts(&counts);
        let order = rank_by_int(&keys, keys.len());
        proof {
            lemma_named_count_ranking(rows, nv, events@, n, keys@.len(), counts@, order@);
        }
        let mut r: Vec<FileEntry> = Vec::new();
        let mut k: usize = 0;
        while k < order.len()
            invariant
                0 <= k <= order@.len(),
                nv == string_views(names@),
                rows == file_rows(self@),
                interns(rows, nv, events@),
                counts@.len() == names@.len(),
                forall|i: int| 0 <= i < order@.len() ==> (#[trigger] order@[i]) < names@.len(),
                file_entry_counts(r@) == named_counts(nv, counts@, order@).take(k as int),
                forall|i: int|
                    0 <= i < r@.len() ==> (#[trigger] r@[i]).change_count == change_count(
                        self@,
                        r@[i].file_path@,
                    ),
            decreases order.len() - k,
        {
            let e = order[k];
            assert(order@[k as int] < names@.len());
            let changes = number_count_of(&events, e);
            proof {
                lemma_change_count_interned(self@, nv, events@, e as int);
            }
            let ghost before = file_entry_counts(r@);
            let entry = FileEntry {
                file_path: names[e].clone(),
                commit_count: counts[e],
                change_count: changes,
            };
            assert(entry.file_path@ == nv[e as int]);
            r.push(entry);
            assert(file_entry_counts(r@) =~= before.push((nv[e as int], counts@[e as int])));
            assert(named_counts(nv, counts@, order@).take(k + 1) =~= named_counts(
                nv,
                counts@,
                order@,
            ).take(k as int).push((nv[e as int], counts@[e as int])));
            k += 1;
        }
        assert(named_counts(nv, counts@, order@).take(order@.len() as int) =~= named_counts(
            nv,
            counts@,
            order@,
        ));
        r
    }

    /// The `top_n` functions touched by the most commits, with their
    /// numbers of commits, by descending number.
    pub fn get_hottest_functions(&self, top_n: usize) -> (r: Vec<HotFunction>)
        requires
            self.wf(),
        ensures
            is_count_ranking(
                function_rows(self@),
                self@.commits.len(),
                top_n as nat,
                hot_function_views(r@),
            ),
    {
        let (names, events) = self.function_events();
        let ghost rows = function_rows(self@);
        let ghost nv = pair_views(names@);
        let ghost n = self@.commits.len();
        proof {
            crate::db::queries::lemma_function_rows_in(self@);
            crate::db::queries::lemma_events_in(self@, rows, nv, events@);
        }
        let counts = occurrence_counts(&events, self.commits.len(), names.len());
        let keys = keys_of_counts(&counts);
        let order = rank_by_int(&keys, top_n);
        proof {
            lemma_named_count_ranking(rows, nv, events@, n, top_n as nat, counts@, order@);
        }
        let mut r: Vec<HotFunction> = Vec::new();
        let mut k: usize = 0;
        while k < order.len()
            invariant
                0 <= k <= order@.len(),
                nv == pair_views(names@),
                counts@.len() == names@.len(),
                forall|i: int| 0 <= i < order@.len() ==> (#[trigger] order@[i]) < names@.len(),
                hot_function_views(r@) == named_counts(nv, counts@, order@).take(k as int),
            decreases order.len() - k,
        {
            let e = order[k];
            assert(order@[k as int] < names@.len());
            let ghost before = hot_function_views(r@);
            let entry = HotFunction {
                function_name: names[e].1.clone(),
                file_path: names[e].0.clone(),
                commit_count: counts[e],
            };
            assert((entry.file_path@, entry.function_name@) == nv[e as int]);
            r.push(entry);
            assert(hot_function_views(r@) =~= before.push((nv[e as int], counts@[e as int])));
            assert(named_counts(nv, counts@, order@).take(k + 1) =~= named_counts(
                nv,
                counts@,
                order@,
            ).take(k as int).push((nv[e as int], counts@[e as int])));
            k += 1;
        }
        assert(named_counts(nv, counts@, order@).take(order@.len() as int) =~= named_counts(
            nv,
            counts@,
            order@,
        ));
        r
    }

    /// The commits that touched the file at `file_path`, one per file
    /// delta of it, newest first (see `is_commit_listing`).
    pub fn get_commits_for_file(&self, file_path: &str) -> (r: Vec<FileCommitInfo>)
        requires
            self.wf(),
        ensures
            exists|idx: Seq<usize>|
                #[trigger] is_commit_listing(self@, file_path@, idx) && idx.len() == r@.len()
                    && forall|i: int|
                    0 <= i < r@.len() ==> (#[trigger] r@[i])@ == commit_info_of(
                        self@,
                        idx[i] as int,
                    ),
    {
        let target = string_from_str(file_path);
        let mut matching: Vec<usize> = Vec::new();
        let mut keys: Vec<i128> = Vec::new();
        let mut j: usize = 0;
        while j < self.file_deltas.len()
            invariant
                0 <= j <= self@.file_deltas.len(),
                self.wf(),
                target@ == file_path@,
                matching@.len() == keys@.len(),
                forall|a: int, b: int| 0 <= a < b < matching@.len() ==> matching@[a] < matching@[b],
                forall|a: int|
                    0 <= a < matching@.len() ==> (#[trigger] matching@[a]) < j
                        && self@.file_deltas[matching@[a] as int].file_path == file_path@
                        && keys@[a] == commit_info_of(self@, matching@[a] as int).timestamp as i128,
                forall|q: usize|
                    q < j && (#[trigger] self@.file_deltas[q as int]).file_path == file_path@
                        ==> matching@.contains(q),
            decreases self.file_deltas.len() - j,
        {
            if self.file_deltas[j].file_path == target {
                let c = self.file_deltas[j].commit_id;
                assert(self@.file_deltas[j as int].commit_id < self@.commits.len());
                let ghost old_m = matching@;
                matching.push(j);
                keys.push(self.commits[c].timestamp as i128);
                proof {
                    assert forall|q: usize|
                        q < j + 1 && (#[trigger] self@.file_deltas[q as int]).file_path
                            == file_path@ implies matching@.contains(q) by {
                        if q == j {
                            assert(matching@[matching@.len() - 1] == q);
                        } else {
                            let w = choose|w: int| 0 <= w < old_m.len() && old_m[w] == q;
                            assert(matching@[w] == q);
                        }
                    }
                }
            }
            j += 1;
        }
        let order = rank_by_int(&keys, keys.len());
        let mut r: Vec<FileCommitInfo> = Vec::new();
        let ghost mut idx: Seq<usize> = Seq::empty();
        let mut k: usize = 0;
        while k < order.len()
            invariant
                0 <= k <= order@.len(),
                self.wf(),
                is_int_ranking(order@, keys@, keys@.len()),
                matching@.len() == keys@.len(),
                forall|a: int|
                    0 <= a < matching@.len() ==> (#[trigger] matching@[a]) < self@.file_deltas.len()
                        && self@.file_deltas[matching@[a] as int].file_path == file_path@
                        && keys@[a] == commit_info_of(self@, matching@[a] as int).timestamp as i128,
                idx.len() == k,
                r@.len() == k,
                forall|i: int| 0 <= i < k ==> idx[i] == matching@[order@[i] as int],
                forall|i: int|
                    0 <= i < k ==> (#[trigger] r@[i])@ == commit_info_of(self@, idx[i] as int),
            decreases order.len() - k,
        {
            let row = order[k];
            let fd = matching[row];
            assert(self@.file_deltas[fd as int].commit_id < self@.commits.len());
            let delta = &self.file_deltas[fd];
            let commit = &self.commits[delta.commit_id];
            r.push(
                FileCommitInfo {
                    hash: commit.hash.clone(),
                    short_hash: commit.short_hash.clone(),
                    author_name: commit.author_name.clone(),
                    timestamp: commit.timestamp,
                    summary: commit.summary.clone(),
                    change_type: delta.change_type.clone(),
                },
            );
            proof {
                idx = idx.push(fd);
            }
            k += 1;
        }
        proof {
            assert forall|i: int, q: int| 0 <= i < q < idx.len() implies idx[i] != idx[q] by {
                assert(order@[i] != order@[q]);
                if order@[i] < order@[q] {
                    assert(matching@[order@[i] as int] < matching@[order@[q] as int]);
                } else {
                    assert(matching@[order@[q] as int] < matching@[order@[i] as int]);
                }
            }
            assert forall|q: usize|
                q < self@.file_deltas.len() && (#[trigger] self@.file_deltas[q as int]).file_path
                    == file_path@ implies idx.contains(q) by {
                let w = choose|w: int| 0 <= w < matching@.len() && matching@[w] == q;
                assert(order@.contains(w as usize));
                let i = choose|i: int| 0 <= i < order@.len() && order@[i] == w as usize;
                assert(idx[i] == q);
            }
            assert forall|i: int, q: int| 0 <= i < q < idx.len() implies commit_info_of(
                self@,
                idx[i] as int,
            ).timestamp >= commit_info_of(self@, idx[q] as int).timestamp by {
                assert(keys@[order@[i] as int] >= keys@[order@[q] as int]);
            }
            assert(is_commit_listing(self@, file_path@, idx));
        }
        r
    }
}

} // verus!
