//! Queries over the coupling store: temporal coupling of a file or of a
//! function, the most strongly coupled file pairs, statistics, the files
//! and functions changed most often, and the commits that touched a file.

use vstd::prelude::*;

use crate::analyzer::string_views;
use crate::db::{file_rows, function_rows, pair_views, well_formed, Database, DatabaseView};
use crate::db::events::{coupled_entities, events_in};
use crate::db::keys::{
    interns, is_key_coupling, key_confidence, key_count, key_joint_count, lemma_named_coupling,
    lemma_unnamed_no_coupling, named_entries,
};
use crate::ratio::{ratio_ge, Ratio};
use crate::text::string_from_str;

verus! {

broadcast use vstd::string::group_string_axioms;

/// A file coupled to a target file.
#[derive(Debug, Clone)]
pub struct CoupledFile {
    /// The file path that is coupled to the target
    pub file_path: String,
    /// Confidence: fraction of target-file commits that also touch this file
    pub confidence: Ratio,
    /// Number of commits where both files appear
    pub co_commit_count: usize,
}

impl CoupledFile {
    /// A copy of this entry.
    pub fn duplicate(&self) -> (r: CoupledFile)
        ensures
            r.file_path@ == self.file_path@,
            r.confidence == self.confidence,
            r.co_commit_count == self.co_commit_count,
    {
        CoupledFile {
            file_path: self.file_path.clone(),
            confidence: self.confidence,
            co_commit_count: self.co_commit_count,
        }
    }
}

/// The value of a coupled file: `(path, co-changes, confidence)`.
pub open spec fn coupled_file_views(v: Seq<CoupledFile>) -> Seq<(Seq<char>, usize, Ratio)> {
    v.map_values(|c: CoupledFile| (c.file_path@, c.co_commit_count, c.confidence))
}

/// A function coupled to a target function.
#[derive(Debug, Clone)]
pub struct CoupledFunction {
    /// Function name
    pub function_name: String,
    /// File path containing the function
    pub file_path: String,
    /// Confidence: fraction of target-function commits that also touch this function
    pub confidence: Ratio,
    /// Number of commits where both functions appear
    pub co_commit_count: usize,
}

/// The value of a coupled function: `((path, name), co-changes, confidence)`.
pub open spec fn coupled_function_views(v: Seq<CoupledFunction>) -> Seq<
    ((Seq<char>, Seq<char>), usize, Ratio),
> {
    v.map_values(
        |c: CoupledFunction| ((c.file_path@, c.function_name@), c.co_commit_count, c.confidence),
    )
}

/// The value of a coupled function as a coupled file:
/// `(path, co-changes, confidence)`.
pub open spec fn coupled_function_files(v: Seq<CoupledFunction>) -> Seq<(Seq<char>, usize, Ratio)> {
    v.map_values(|c: CoupledFunction| (c.file_path@, c.co_commit_count, c.confidence))
}

/// The name given to entries of a function-level result that fell back to
/// file-level coupling.
pub open spec fn file_level_name() -> Seq<char> {
    "(file-level)"@
}

/// Every event of an interning names a stored commit and a numbered key.
pub(crate) proof fn lemma_events_in<K>(
    d: DatabaseView,
    rows: Seq<(usize, K)>,
    names: Seq<K>,
    events: Seq<(usize, usize)>,
)
    requires
        interns(rows, names, events),
        forall|i: int| 0 <= i < rows.len() ==> (#[trigger] rows[i]).0 < d.commits.len(),
    ensures
        events_in(events, d.commits.len(), names.len()),
{
    assert forall|i: int| 0 <= i < events.len() implies (#[trigger] events[i]).0 < d.commits.len()
        && events[i].1 < names.len() by {
        assert(events[i].0 == rows[i].0);
    }
}

/// The file rows of a well-formed store name stored commits.
pub(crate) proof fn lemma_file_rows_in(d: DatabaseView)
    requires
        well_formed(d),
    ensures
        forall|i: int| 0 <= i < file_rows(d).len() ==> (#[trigger] file_rows(d)[i]).0 < d.commits.len(),
{
    assert forall|i: int| 0 <= i < file_rows(d).len() implies (#[trigger] file_rows(d)[i]).0
        < d.commits.len() by {
        assert(file_rows(d)[i].0 == d.file_deltas[i].commit_id);
    }
}

/// The function rows of a well-formed store name stored commits.
pub(crate) proof fn lemma_function_rows_in(d: DatabaseView)
    requires
        well_formed(d),
    ensures
        forall|i: int|
            0 <= i < function_rows(d).len() ==> (#[trigger] function_rows(d)[i]).0
                < d.commits.len(),
{
    assert forall|i: int| 0 <= i < function_rows(d).len() implies (#[trigger] function_rows(
        d,
    )[i]).0 < d.commits.len() by {
        assert(function_rows(d)[i].0 == d.function_deltas[i].commit_id);
    }
}

/// The position of `s` in `names`, if it is there.
fn position_of(names: &Vec<String>, s: &String) -> (r: Option<usize>)
    ensures
        r matches Some(i) ==> i < names@.len() && names@[i as int]@ == s@,
        r is None ==> forall|i: int| 0 <= i < names@.len() ==> names@[i]@ != s@,
{
    let mut i: usize = 0;
    while i < names.len()
        invariant
            0 <= i <= names@.len(),
            forall|j: int| 0 <= j < i ==> names@[j]@ != s@,
        decreases names.len() - i,
    {
        if names[i] == *s {
            return Some(i);
        }
        i += 1;
    }
    None
}

/// The position of `(a, b)` in `names`, if it is there.
fn position_of_pair(names: &Vec<(String, String)>, a: &String, b: &String) -> (r: Option<usize>)
    ensures
        r matches Some(i) ==> i < names@.len() && pair_views(names@)[i as int] == (a@, b@),
        r is None ==> forall|i: int| 0 <= i < names@.len() ==> pair_views(names@)[i] != (a@, b@),
{
    let mut i: usize = 0;
    while i < names.len()
        invariant
            0 <= i <= names@.len(),
            forall|j: int| 0 <= j < i ==> pair_views(names@)[j] != (a@, b@),
        decreases names.len() - i,
    {
        if names[i].0 == *a && names[i].1 == *b {
            return Some(i);
        }
        i += 1;
    }
    None
}

/// Two file paths coupled as a pair.
#[derive(Debug, Clone)]
pub struct CoupledPair {
    pub file_a: String,
    pub file_b: String,
    pub confidence: Ratio,
    pub co_commit_count: usize,
}

impl CoupledPair {
    /// A copy of this entry.
    pub fn duplicate(&self) -> (r: CoupledPair)
        ensures
            r.file_a@ == self.file_a@,
            r.file_b@ == self.file_b@,
            r.confidence == self.confidence,
            r.co_commit_count == self.co_commit_count,
    {
        CoupledPair {
            file_a: self.file_a.clone(),
            file_b: self.file_b.clone(),
            confidence: self.confidence,
            co_commit_count: self.co_commit_count,
        }
    }
}

/// The value of a coupled pair: `(a, b, co-changes, confidence)`.
pub open spec fn coupled_pair_views(v: Seq<CoupledPair>) -> Seq<(Seq<char>, Seq<char>, usize, Ratio)> {
    v.map_values(|p: CoupledPair| (p.file_a@, p.file_b@, p.co_commit_count, p.confidence))
}

/// `a` sorts before `b`, comparing characters by code point.
pub open spec fn chars_less(a: Seq<char>, b: Seq<char>) -> bool
    decreases a.len(),
{
    if a.len() == 0 {
        b.len() > 0
    } else if b.len() == 0 {
        false
    } else if a[0] != b[0] {
        (a[0] as u32) < (b[0] as u32)
    } else {
        chars_less(a.drop_first(), b.drop_first())
    }
}

/// The greater of two fractions (the first where they are equal).
pub open spec fn ratio_max(x: Ratio, y: Ratio) -> Ratio {
    if ratio_ge(x, y) {
        x
    } else {
        y
    }
}

/// The confidence of a pair: the greater of `Count(a ∩ b) / Count(a)` and
/// `Count(a ∩ b) / Count(b)`.
pub open spec fn pair_confidence(rows: Seq<(usize, Seq<char>)>, a: Seq<char>, b: Seq<char>, n: nat) -> Ratio {
    ratio_max(key_confidence(rows, a, b, n), key_confidence(rows, b, a, n))
}

/// `a` and `b` (with `a` sorting first) are a coupled pair: changed
/// together by at least one and at least `min_co` commits, with a pair
/// confidence of at least `threshold`.
pub open spec fn pair_coupled(
    rows: Seq<(usize, Seq<char>)>,
    a: Seq<char>,
    b: Seq<char>,
    n: nat,
    threshold: Ratio,
    min_co: nat,
) -> bool {
    &&& chars_less(a, b)
    &&& key_joint_count(rows, a, b, n) > 0
    &&& key_joint_count(rows, a, b, n) >= min_co
    &&& ratio_ge(pair_confidence(rows, a, b, n), threshold)
}

/// Some entry of `r` is for the pair `(a, b)`.
pub open spec fn lists_pair(r: Seq<(Seq<char>, Seq<char>, usize, Ratio)>, a: Seq<char>, b: Seq<char>) -> bool {
    exists|i: int| 0 <= i < r.len() && (#[trigger] r[i]).0 == a && r[i].1 == b
}

/// The most strongly coupled pairs cut to `top_n`: distinct coupled pairs
/// with their co-change counts and confidences, by descending confidence,
/// at most `top_n` of them, and no coupled pair left out unless `top_n` are
/// listed, each at least as confident.
pub open spec fn is_pair_selection(
    rows: Seq<(usize, Seq<char>)>,
    n: nat,
    threshold: Ratio,
    min_co: nat,
    top_n: nat,
    r: Seq<(Seq<char>, Seq<char>, usize, Ratio)>,
) -> bool {
    &&& pair_entries(rows, n, threshold, min_co, top_n, r)
    &&& forall|i: int, j: int| 0 <= i < j < r.len() ==> ratio_ge(r[i].3, r[j].3)
}

/// Distinct coupled pairs with their co-change counts and confidences, at
/// most `top_n` of them, and no coupled pair left out unless `top_n` are
/// listed, each at least as confident.
pub open spec fn pair_entries(
    rows: Seq<(usize, Seq<char>)>,
    n: nat,
    threshold: Ratio,
    min_co: nat,
    top_n: nat,
    r: Seq<(Seq<char>, Seq<char>, usize, Ratio)>,
) -> bool {
    &&& r.len() <= top_n
    &&& forall|i: int|
        0 <= i < r.len() ==> {
            let (a, b, co, conf) = #[trigger] r[i];
            &&& pair_coupled(rows, a, b, n, threshold, min_co)
            &&& co == key_joint_count(rows, a, b, n)
            &&& conf == pair_confidence(rows, a, b, n)
        }
    &&& forall|i: int, j: int| 0 <= i < j < r.len() ==> !(r[i].0 == r[j].0 && r[i].1 == r[j].1)
    &&& forall|a: Seq<char>, b: Seq<char>|
        pair_coupled(rows, a, b, n, threshold, min_co) && !lists_pair(r, a, b) ==> {
            &&& r.len() == top_n
            &&& forall|k: int|
                0 <= k < r.len() ==> ratio_ge((#[trigger] r[k]).3, pair_confidence(rows, a, b, n))
        }
}

/// The most strongly coupled pairs cut to `top_n` (see `pair_entries`),
/// by descending co-change count, pairs with equal counts by descending
/// confidence.
pub open spec fn is_pair_ranking(
    rows: Seq<(usize, Seq<char>)>,
    n: nat,
    threshold: Ratio,
    min_co: nat,
    top_n: nat,
    r: Seq<(Seq<char>, Seq<char>, usize, Ratio)>,
) -> bool {
    &&& pair_entries(rows, n, threshold, min_co, top_n, r)
    &&& forall|i: int, j: int| 0 <= i < j < r.len() ==> r[i].2 >= r[j].2
    &&& forall|i: int, j: int| 0 <= i < j < r.len() && r[i].2 == r[j].2 ==> ratio_ge(r[i].3, r[j].3)
}

impl Database {
    /// The files temporally coupled to `target_file`: each other file that
    /// some commit touching the target also touched, with
    /// `confidence = commits(target & file) / commits(target)` of at least
    /// `threshold`, by descending confidence, at most `top_n` of them (see
    /// `is_key_coupling`). Empty when no commit touched the target.
    pub fn query_temporal_coupling(&self, target_file: &str, threshold: Ratio, top_n: usize) -> (r:
        Vec<CoupledFile>)
        requires
            self.wf(),
        ensures
            is_key_coupling(
                file_rows(self@),
                target_file@,
                self@.commits.len(),
                threshold,
                top_n as nat,
                coupled_file_views(r@),
            ),
    {
        let (names, events) = self.file_events();
        let ghost rows = file_rows(self@);
        let ghost nv = string_views(names@);
        proof {
            lemma_file_rows_in(self@);
            lemma_events_in(self@, rows, nv, events@);
        }
        let target = string_from_str(target_file);
        let a = match position_of(&names, &target) {
            Some(a) => a,
            None => {
                let r: Vec<CoupledFile> = Vec::new();
                proof {
                    lemma_unnamed_no_coupling(
                        rows,
                        nv,
                        events@,
                        target_file@,
                        self@.commits.len(),
                        threshold,
                        top_n as nat,
                    );
                    assert(coupled_file_views(r@) =~= Seq::<(Seq<char>, usize, Ratio)>::empty());
                }
                return r;
            },
        };
        let raw = coupled_entities(&events, a, self.commits.len(), names.len(), threshold, top_n);
        proof {
            lemma_named_coupling(
                rows,
                nv,
                events@,
                a as int,
                self@.commits.len(),
                threshold,
                top_n as nat,
                raw@,
            );
        }
        let mut r: Vec<CoupledFile> = Vec::new();
        let mut k: usize = 0;
        while k < raw.len()
            invariant
                0 <= k <= raw@.len(),
                nv == string_views(names@),
                forall|i: int| 0 <= i < raw@.len() ==> (#[trigger] raw@[i]).0 < names@.len(),
                coupled_file_views(r@) == named_entries(nv, raw@.take(k as int)),
            decreases raw.len() - k,
        {
            let (b, co, conf) = raw[k];
            assert(raw@[k as int].0 < names@.len());
            let ghost before = coupled_file_views(r@);
            let item = CoupledFile { file_path: names[b].clone(), confidence: conf, co_commit_count: co };
            assert(item.file_path@ == nv[b as int]);
            r.push(item);
            assert(coupled_file_views(r@) =~= before.push((nv[b as int], co, conf)));
            assert(raw@.take(k + 1) =~= raw@.take(k as int).push(raw@[k as int]));
            assert(named_entries(nv, raw@.take(k + 1)) =~= named_entries(nv, raw@.take(k as int)).push(
                (nv[b as int], co, conf),
            ));
            k += 1;
        }
        assert(raw@.take(raw@.len() as int) =~= raw@);
        r
    }

    /// The functions temporally coupled to `target_function` of
    /// `target_file`, as `query_temporal_coupling` does for files but over
    /// the function deltas. Where no commit touched the target function,
    /// the files coupled to `target_file` instead, each under the name
    /// `(file-level)`.
    pub fn query_function_temporal_coupling(
        &self,
        target_file: &str,
        target_function: &str,
        threshold: Ratio,
        top_n: usize,
    ) -> (r: Vec<CoupledFunction>)
        requires
            self.wf(),
        ensures
            key_count(function_rows(self@), (target_file@, target_function@), self@.commits.len())
                > 0 ==> is_key_coupling(
                function_rows(self@),
                (target_file@, target_function@),
                self@.commits.len(),
                threshold,
                top_n as nat,
                coupled_function_views(r@),
            ),
            key_count(function_rows(self@), (target_file@, target_function@), self@.commits.len())
                == 0 ==> is_key_coupling(
                file_rows(self@),
                target_file@,
                self@.commits.len(),
                threshold,
                top_n as nat,
                coupled_function_files(r@),
            ) && forall|i: int| 0 <= i < r@.len() ==> (#[trigger] r@[i]).function_name@
                == file_level_name(),
    {
        let (names, events) = self.function_events();
        let ghost rows = function_rows(self@);
        let ghost nv = pair_views(names@);
        let ghost n = self@.commits.len();
        proof {
            lemma_function_rows_in(self@);
            lemma_events_in(self@, rows, nv, events@);
        }
        let tf = string_from_str(target_file);
        let tn = string_from_str(target_function);
        let a = match position_of_pair(&names, &tf, &tn) {
            Some(a) => a,
            None => {
                proof {
                    crate::db::keys::lemma_unnamed_counts(
                        rows,
                        nv,
                        events@,
                        (target_file@, target_function@),
                        (target_file@, target_function@),
                        n,
                    );
                }
                let files = self.query_temporal_coupling(target_file, threshold, top_n);
                let mut r: Vec<CoupledFunction> = Vec::new();
                let mut k: usize = 0;
                while k < files.len()
                    invariant
                        0 <= k <= files@.len(),
                        coupled_function_files(r@) == coupled_file_views(files@).take(k as int),
                        forall|i: int| 0 <= i < r@.len() ==> (#[trigger] r@[i]).function_name@
                            == file_level_name(),
                    decreases files.len() - k,
                {
                    let f = &files[k];
                    let c = CoupledFunction {
                        function_name: string_from_str("(file-level)"),
                        file_path: f.file_path.clone(),
                        confidence: f.confidence,
                        co_commit_count: f.co_commit_count,
                    };
                    let ghost before = coupled_function_files(r@);
                    r.push(c);
                    assert(coupled_function_files(r@) =~= before.push(coupled_file_views(files@)[k as int]));
                    assert(coupled_function_files(r@) =~= coupled_file_views(files@).take(k + 1));
                    k += 1;
                }
                assert(coupled_file_views(files@).take(files@.len() as int) =~= coupled_file_views(
                    files@,
                ));
                return r;
            },
        };
        let raw = coupled_entities(&events, a, self.commits.len(), names.len(), threshold, top_n);
        proof {
            lemma_named_coupling(rows, nv, events@, a as int, n, threshold, top_n as nat, raw@);
            crate::db::keys::lemma_interned_masks(rows, nv, events@, n);
            assert(crate::db::keys::number_used(events@, a as int));
            let q = choose|q: int|
                0 <= q < events@.len() && (#[trigger] events@[q]).1 == a as int;
            crate::db::keys::lemma_interned_occurs(rows, nv, events@, a as int, events@[q].0 as int);
            assert(crate::db::events::occurs(events@, a as int, events@[q].0 as int));
            assert(key_count(rows, nv[a as int], n) == crate::db::events::occurrence_count(
                events@,
                a as int,
                n,
            ));
            crate::db::count::lemma_count_true_positive(
                crate::db::events::occurrence_mask(events@, a as int, n),
            );
            assert(crate::db::events::occurrence_mask(events@, a as int, n)[events@[q].0 as int]);
        }
        let mut r: Vec<CoupledFunction> = Vec::new();
        let mut k: usize = 0;
        while k < raw.len()
            invariant
                0 <= k <= raw@.len(),
                nv == pair_views(names@),
                forall|i: int| 0 <= i < raw@.len() ==> (#[trigger] raw@[i]).0 < names@.len(),
                coupled_function_views(r@) == named_entries(nv, raw@.take(k as int)),
            decreases raw.len() - k,
        {
            let (b, co, conf) = raw[k];
            assert(raw@[k as int].0 < names@.len());
            let ghost before = coupled_function_views(r@);
            let item = CoupledFunction {
                function_name: names[b].1.clone(),
                file_path: names[b].0.clone(),
                confidence: conf,
                co_commit_count: co,
            };
            assert((item.file_path@, item.function_name@) == nv[b as int]);
            r.push(item);
            assert(coupled_function_views(r@) =~= before.push((nv[b as int], co, conf)));
            assert(raw@.take(k + 1) =~= raw@.take(k as int).push(raw@[k as int]));
            assert(named_entries(nv, raw@.take(k + 1)) =~= named_entries(nv, raw@.take(k as int)).push(
                (nv[b as int], co, conf),
            ));
            k += 1;
        }
        assert(raw@.take(raw@.len() as int) =~= raw@);
        r
    }

}

} // verus!
