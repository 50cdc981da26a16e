//! Function-level coupling: combines the static call graph with temporal
//! coupling of files into ranked, risk-classified entries.

use vstd::prelude::*;

use crate::analyzer::call_graph::source_views;
use crate::analyzer::calls::{calls_of_function_in, extract_calls_from_function};
use crate::analyzer::languages::{has_grammar, language_of_path};
use crate::analyzer::parse::{parsed, AnalyzeError};
use crate::analyzer::{
    classify_risk, def_views, edge_views, extract_functions, find_function_at_line,
    function_at_line_of_tree, functions_of_tree, risk_of, string_views, CallEdge, CallEdgeView,
    FunctionDef, FunctionDefView, RiskLevel,
};
use crate::ratio::{ratio_gt, Ratio};
use crate::text::{str_eq, string_from_str};

verus! {

/// A function-level coupling result combining static analysis and temporal
/// coupling.
#[derive(Debug, Clone)]
pub struct FunctionCoupling {
    pub function_name: String,
    pub file_path: String,
    pub confidence: Ratio,
    pub has_static_call: bool,
    pub risk_level: RiskLevel,
}

/// The value a `FunctionCoupling` holds.
pub struct FunctionCouplingView {
    pub function_name: Seq<char>,
    pub file_path: Seq<char>,
    pub confidence: Ratio,
    pub has_static_call: bool,
    pub risk_level: RiskLevel,
}

impl FunctionCoupling {
    /// A copy of this entry.
    pub fn duplicate(&self) -> (r: FunctionCoupling)
        ensures
            r@ == self@,
    {
        FunctionCoupling {
            function_name: self.function_name.clone(),
            file_path: self.file_path.clone(),
            confidence: self.confidence,
            has_static_call: self.has_static_call,
            risk_level: self.risk_level,
        }
    }
}

impl View for FunctionCoupling {
    type V = FunctionCouplingView;

    open spec fn view(&self) -> FunctionCouplingView {
        FunctionCouplingView {
            function_name: self.function_name@,
            file_path: self.file_path@,
            confidence: self.confidence,
            has_static_call: self.has_static_call,
            risk_level: self.risk_level,
        }
    }
}

/// The values of a list of coupling results.
pub open spec fn coupling_views(v: Seq<FunctionCoupling>) -> Seq<FunctionCouplingView> {
    v.map_values(|c: FunctionCoupling| c@)
}

/// The functions a source file holds: `None` when reading them failed.
pub struct FileFunctions {
    pub file_path: String,
    pub functions: Option<Vec<FunctionDef>>,
}

/// The value a `FileFunctions` holds.
pub open spec fn file_functions_view(f: FileFunctions) -> (Seq<char>, Option<Seq<FunctionDefView>>) {
    (
        f.file_path@,
        match f.functions {
            Some(v) => Some(def_views(v@)),
            None => None,
        },
    )
}

/// The values of a list of per-file function lists.
pub open spec fn file_functions_views(v: Seq<FileFunctions>) -> Seq<(Seq<char>, Option<Seq<FunctionDefView>>)> {
    v.map_values(|f: FileFunctions| file_functions_view(f))
}

/// The file-level coupling input: `(path, confidence, co-change count)`.
pub open spec fn coupling_input_views(v: Seq<(String, Ratio, usize)>) -> Seq<(Seq<char>, Ratio, usize)> {
    v.map_values(|t: (String, Ratio, usize)| (t.0@, t.1, t.2))
}

// ─── Static dependency ───────────────────────────────────────────────────────

/// Some edge links the target function and the file: the target calls into
/// it, or a function in it calls a function named like the target.
pub open spec fn edge_links(path: Seq<char>, target: FunctionDefView, edges: Seq<CallEdgeView>) -> bool {
    exists|i: int|
        0 <= i < edges.len() && ({
            let e = #[trigger] edges[i];
            (e.caller_name == target.name && e.caller_file == target.file_path && e.callee_file
                == Some(path)) || (e.callee_name == target.name && e.caller_file == path)
        })
}

/// Some entry of `files` for the path defines a function that the target
/// calls directly.
pub open spec fn defines_direct_callee(
    path: Seq<char>,
    direct_calls: Seq<Seq<char>>,
    files: Seq<(Seq<char>, Option<Seq<FunctionDefView>>)>,
) -> bool {
    exists|i: int| 0 <= i < files.len() && entry_defines_callee(#[trigger] files[i], path, direct_calls)
}

/// The entry is for the path and defines a function the target calls.
pub open spec fn entry_defines_callee(
    entry: (Seq<char>, Option<Seq<FunctionDefView>>),
    path: Seq<char>,
    direct_calls: Seq<Seq<char>>,
) -> bool {
    entry.0 == path && match entry.1 {
        Some(fs) => exists|k: int| 0 <= k < fs.len() && direct_calls.contains(#[trigger] fs[k].name),
        None => false,
    }
}

proof fn lemma_entry_defines_callee(
    e: (Seq<char>, Option<Seq<FunctionDefView>>),
    path: Seq<char>,
    calls: Seq<Seq<char>>,
    dv: Seq<FunctionDefView>,
    k: int,
)
    requires
        e.0 == path,
        e.1 == Some(dv),
        0 <= k < dv.len(),
        calls.contains(dv[k].name),
    ensures
        entry_defines_callee(e, path, calls),
{
    let fs = e.1->0;
    assert(fs == dv);
    assert(calls.contains(fs[k].name));
}

/// The file has a static dependency on the target function.
pub open spec fn static_dep_file(
    path: Seq<char>,
    target: FunctionDefView,
    direct_calls: Seq<Seq<char>>,
    edges: Seq<CallEdgeView>,
    files: Seq<(Seq<char>, Option<Seq<FunctionDefView>>)>,
) -> bool {
    edge_links(path, target, edges) || defines_direct_callee(path, direct_calls, files)
}

/// The functions read for the first entry of `files` with the path (a map
/// lookup by path): none when there is no such entry or reading failed.
pub open spec fn functions_of_path(
    files: Seq<(Seq<char>, Option<Seq<FunctionDefView>>)>,
    path: Seq<char>,
) -> Option<Seq<FunctionDefView>>
    decreases files.len(),
{
    if files.len() == 0 {
        None
    } else if files[0].0 == path {
        files[0].1
    } else {
        functions_of_path(files.drop_first(), path)
    }
}

/// One coupling entry for a function of a coupled file.
pub open spec fn function_entry(
    f: FunctionDefView,
    path: Seq<char>,
    confidence: Ratio,
    direct_calls: Seq<Seq<char>>,
) -> FunctionCouplingView {
    let has = direct_calls.contains(f.name);
    FunctionCouplingView {
        function_name: f.name,
        file_path: path,
        confidence,
        has_static_call: has,
        risk_level: risk_of(has, confidence),
    }
}

/// The entries for the functions of a coupled file, in order.
pub open spec fn function_entries(
    fs: Seq<FunctionDefView>,
    path: Seq<char>,
    confidence: Ratio,
    direct_calls: Seq<Seq<char>>,
) -> Seq<FunctionCouplingView>
    decreases fs.len(),
{
    if fs.len() == 0 {
        seq![]
    } else {
        function_entries(fs.drop_last(), path, confidence, direct_calls).push(
            function_entry(fs.last(), path, confidence, direct_calls),
        )
    }
}

/// The entries for one coupled file: one per function of it, then one for
/// the file as a whole.
pub open spec fn entries_for_file(
    coupled: (Seq<char>, Ratio, usize),
    target: FunctionDefView,
    direct_calls: Seq<Seq<char>>,
    edges: Seq<CallEdgeView>,
    files: Seq<(Seq<char>, Option<Seq<FunctionDefView>>)>,
) -> Seq<FunctionCouplingView> {
    let path = coupled.0;
    let confidence = coupled.1;
    let has = static_dep_file(path, target, direct_calls, edges, files);
    let per_function = match functions_of_path(files, path) {
        Some(fs) => function_entries(fs, path, confidence, direct_calls),
        None => seq![],
    };
    per_function.push(
        FunctionCouplingView {
            function_name: "(file-level)"@,
            file_path: path,
            confidence,
            has_static_call: has,
            risk_level: risk_of(has, confidence),
        },
    )
}

/// All entries, coupled file by coupled file, before ranking.
pub open spec fn coupling_entries(
    coupled: Seq<(Seq<char>, Ratio, usize)>,
    target: FunctionDefView,
    direct_calls: Seq<Seq<char>>,
    edges: Seq<CallEdgeView>,
    files: Seq<(Seq<char>, Option<Seq<FunctionDefView>>)>,
) -> Seq<FunctionCouplingView>
    decreases coupled.len(),
{
    if coupled.len() == 0 {
        seq![]
    } else {
        coupling_entries(coupled.drop_last(), target, direct_calls, edges, files) + entries_for_file(
            coupled.last(),
            target,
            direct_calls,
            edges,
            files,
        )
    }
}

// ─── Ranking ─────────────────────────────────────────────────────────────────

/// The rank of a risk level: High first.
pub open spec fn risk_rank(r: RiskLevel) -> int {
    match r {
        RiskLevel::High => 0,
        RiskLevel::Medium => 1,
        RiskLevel::Low => 2,
    }
}

/// `a` goes before `b`: a higher risk, or the same risk and a higher
/// confidence.
pub open spec fn ranks_before(a: FunctionCouplingView, b: FunctionCouplingView) -> bool {
    risk_rank(a.risk_level) < risk_rank(b.risk_level) || (risk_rank(a.risk_level) == risk_rank(
        b.risk_level,
    ) && ratio_gt(a.confidence, b.confidence))
}

/// `x` placed into `s` before the first entry it ranks before (at the end
/// when there is none).
pub open spec fn insert_ranked(s: Seq<FunctionCouplingView>, x: FunctionCouplingView) -> Seq<
    FunctionCouplingView,
>
    decreases s.len(),
{
    if s.len() == 0 {
        seq![x]
    } else if ranks_before(x, s[0]) {
        seq![x] + s
    } else {
        seq![s[0]] + insert_ranked(s.drop_first(), x)
    }
}

/// The entries ordered by rank, equal entries keeping their order: a stable
/// sort by (risk, confidence descending).
pub open spec fn rank_entries(s: Seq<FunctionCouplingView>) -> Seq<FunctionCouplingView>
    decreases s.len(),
{
    if s.len() == 0 {
        seq![]
    } else {
        insert_ranked(rank_entries(s.drop_last()), s.last())
    }
}

/// The result of the function-level analysis for a target function.
pub open spec fn ranked_coupling(
    coupled: Seq<(Seq<char>, Ratio, usize)>,
    target: FunctionDefView,
    direct_calls: Seq<Seq<char>>,
    edges: Seq<CallEdgeView>,
    files: Seq<(Seq<char>, Option<Seq<FunctionDefView>>)>,
) -> Seq<FunctionCouplingView> {
    rank_entries(coupling_entries(coupled, target, direct_calls, edges, files))
}

/// Inserting at the first index the new entry ranks before is `insert_ranked`.
proof fn lemma_insert_ranked_at(s: Seq<FunctionCouplingView>, x: FunctionCouplingView, i: int)
    requires
        0 <= i <= s.len(),
        forall|j: int| 0 <= j < i ==> !ranks_before(x, #[trigger] s[j]),
        i < s.len() ==> ranks_before(x, s[i]),
    ensures
        insert_ranked(s, x) == s.take(i) + seq![x] + s.skip(i),
    decreases s.len(),
{
    if s.len() == 0 {
        assert(s.take(i) + seq![x] + s.skip(i) =~= seq![x]);
    } else if i == 0 {
        assert(s.take(0) + seq![x] + s.skip(0) =~= seq![x] + s);
    } else {
        let t = s.drop_first();
        assert forall|j: int| 0 <= j < i - 1 implies !ranks_before(x, #[trigger] t[j]) by {
            assert(t[j] == s[j + 1]);
        }
        if i - 1 < t.len() {
            assert(t[i - 1] == s[i]);
        }
        lemma_insert_ranked_at(t, x, i - 1);
        assert(s.take(i) + seq![x] + s.skip(i) =~= seq![s[0]] + (t.take(i - 1) + seq![x] + t.skip(
            i - 1,
        )));
    }
}

fn rank_rank(r: RiskLevel) -> (k: u8)
    ensures
        k == risk_rank(r),
{
    match r {
        RiskLevel::High => 0,
        RiskLevel::Medium => 1,
        RiskLevel::Low => 2,
    }
}

fn ranks_before_exec(a: &FunctionCoupling, b: &FunctionCoupling) -> (r: bool)
    ensures
        r == ranks_before(a@, b@),
{
    let ra = rank_rank(a.risk_level);
    let rb = rank_rank(b.risk_level);
    ra < rb || (ra == rb && a.confidence.greater_than(&b.confidence))
}

/// The entries stably sorted by (risk, confidence descending).
pub fn rank_coupling_entries(entries: &Vec<FunctionCoupling>) -> (r: Vec<FunctionCoupling>)
    ensures
        coupling_views(r@) == rank_entries(coupling_views(entries@)),
{
    let ghost all = coupling_views(entries@);
    let mut sorted: Vec<FunctionCoupling> = Vec::new();
    let mut n: usize = 0;
    while n < entries.len()
        invariant
            0 <= n <= entries@.len(),
            all == coupling_views(entries@),
            coupling_views(sorted@) == rank_entries(all.take(n as int)),
        decreases entries.len() - n,
    {
        let x = entries[n].duplicate();
        let ghost s = coupling_views(sorted@);
        let mut i: usize = 0;
        while i < sorted.len() && !ranks_before_exec(&x, &sorted[i])
            invariant
                0 <= i <= sorted@.len(),
                s == coupling_views(sorted@),
                forall|j: int| 0 <= j < i ==> !ranks_before(x@, #[trigger] s[j]),
            decreases sorted.len() - i,
        {
            i += 1;
        }
        proof {
            lemma_insert_ranked_at(s, x@, i as int);
        }
        let ghost xv = x@;
        sorted.insert(i, x);
        assert(coupling_views(sorted@) =~= s.take(i as int) + seq![xv] + s.skip(i as int));
        assert(all.take(n + 1).drop_last() =~= all.take(n as int));
        assert(all.take(n + 1).last() == xv);
        n += 1;
    }
    assert(all.take(all.len() as int) =~= all);
    sorted
}

// ─── Combining ───────────────────────────────────────────────────────────────

/// Whether some edge links the target function and the file.
fn edge_links_exec(path: &String, target: &FunctionDef, edges: &Vec<CallEdge>) -> (r: bool)
    ensures
        r == edge_links(path@, target@, edge_views(edges@)),
{
    let mut i: usize = 0;
    while i < edges.len()
        invariant
            0 <= i <= edges@.len(),
            forall|j: int|
                0 <= j < i ==> !({
                    let e = #[trigger] edge_views(edges@)[j];
                    (e.caller_name == target@.name && e.caller_file == target@.file_path
                        && e.callee_file == Some(path@)) || (e.callee_name == target@.name
                        && e.caller_file == path@)
                }),
        decreases edges.len() - i,
    {
        let e = &edges[i];
        assert(edge_views(edges@)[i as int] == e@);
        let calls_into = str_eq(e.caller_name.as_str(), target.name.as_str()) && str_eq(
            e.caller_file.as_str(),
            target.file_path.as_str(),
        ) && match &e.callee_file {
            Some(cf) => str_eq(cf.as_str(), path.as_str()),
            None => false,
        };
        let called_from = str_eq(e.callee_name.as_str(), target.name.as_str()) && str_eq(
            e.caller_file.as_str(),
            path.as_str(),
        );
        if calls_into || called_from {
            return true;
        }
        i += 1;
    }
    false
}

/// Whether `calls` holds `name`.
fn calls_contain(calls: &Vec<String>, name: &String) -> (r: bool)
    ensures
        r == string_views(calls@).contains(name@),
{
    let mut i: usize = 0;
    while i < calls.len()
        invariant
            0 <= i <= calls@.len(),
            forall|j: int| 0 <= j < i ==> string_views(calls@)[j] != name@,
        decreases calls.len() - i,
    {
        if str_eq(calls[i].as_str(), name.as_str()) {
            assert(string_views(calls@)[i as int] == name@);
            return true;
        }
        i += 1;
    }
    false
}

/// Whether some entry for the path defines a function the target calls.
fn defines_direct_callee_exec(path: &String, direct_calls: &Vec<String>, files: &Vec<FileFunctions>) -> (r:
    bool)
    ensures
        r == defines_direct_callee(path@, string_views(direct_calls@), file_functions_views(files@)),
{
    let ghost fv = file_functions_views(files@);
    let ghost calls = string_views(direct_calls@);
    let mut i: usize = 0;
    while i < files.len()
        invariant
            0 <= i <= files@.len(),
            fv == file_functions_views(files@),
            calls == string_views(direct_calls@),
            forall|a: int| 0 <= a < i ==> !entry_defines_callee(#[trigger] fv[a], path@, calls),
        decreases files.len() - i,
    {
        assert(fv[i as int] == file_functions_view(files@[i as int]));
        if str_eq(files[i].file_path.as_str(), path.as_str()) {
            if let Some(fs) = &files[i].functions {
                let mut k: usize = 0;
                while k < fs.len()
                    invariant
                        0 <= k <= fs@.len(),
                        0 <= i < files@.len(),
                        fv == file_functions_views(files@),
                        files@[i as int].functions == Some(*fs),
                        files@[i as int].file_path@ == path@,
                        calls == string_views(direct_calls@),
                        forall|m: int| 0 <= m < k ==> !calls.contains(#[trigger] def_views(fs@)[m].name),
                    decreases fs.len() - k,
                {
                    assert(def_views(fs@)[k as int] == fs@[k as int]@);
                    if calls_contain(direct_calls, &fs[k].name) {
                        proof {
                            lemma_entry_defines_callee(fv[i as int], path@, calls, def_views(fs@), k as int);
                        }
                        return true;
                    }
                    k += 1;
                }
                assert(fv[i as int].1 == Some(def_views(fs@)));
            }
        }
        i += 1;
    }
    false
}

/// The functions read for the first entry with the path.
fn find_functions_of_path<'a>(files: &'a Vec<FileFunctions>, path: &String) -> (r: Option<
    &'a Vec<FunctionDef>,
>)
    ensures
        r matches Some(v) ==> functions_of_path(file_functions_views(files@), path@) == Some(
            def_views(v@),
        ),
        r is None ==> functions_of_path(file_functions_views(files@), path@) is None,
{
    let ghost fv = file_functions_views(files@);
    let mut i: usize = 0;
    assert(fv.skip(0) =~= fv);
    while i < files.len()
        invariant
            0 <= i <= files@.len(),
            fv == file_functions_views(files@),
            functions_of_path(fv, path@) == functions_of_path(fv.skip(i as int), path@),
        decreases files.len() - i,
    {
        assert(fv.skip(i as int).drop_first() =~= fv.skip(i + 1));
        assert(fv.skip(i as int)[0] == file_functions_view(files@[i as int]));
        if str_eq(files[i].file_path.as_str(), path.as_str()) {
            return match &files[i].functions {
                Some(v) => Some(v),
                None => None,
            };
        }
        i += 1;
    }
    None
}

/// The function-level coupling entries for a target function, ranked: for
/// each coupled file, one entry per function read for it and one for the
/// file, each classified by risk, then stably sorted by risk and descending
/// confidence.
pub fn combine_function_coupling(
    target: &FunctionDef,
    direct_calls: &Vec<String>,
    call_edges: &Vec<CallEdge>,
    files: &Vec<FileFunctions>,
    file_coupling: &Vec<(String, Ratio, usize)>,
) -> (r: Vec<FunctionCoupling>)
    ensures
        coupling_views(r@) == ranked_coupling(
            coupling_input_views(file_coupling@),
            target@,
            string_views(direct_calls@),
            edge_views(call_edges@),
            file_functions_views(files@),
        ),
{
    let ghost coupled = coupling_input_views(file_coupling@);
    let ghost calls = string_views(direct_calls@);
    let ghost edges = edge_views(call_edges@);
    let ghost fv = file_functions_views(files@);
    let mut results: Vec<FunctionCoupling> = Vec::new();
    let mut i: usize = 0;
    while i < file_coupling.len()
        invariant
            0 <= i <= file_coupling@.len(),
            coupled == coupling_input_views(file_coupling@),
            calls == string_views(direct_calls@),
            edges == edge_views(call_edges@),
            fv == file_functions_views(files@),
            coupling_views(results@) == coupling_entries(coupled.take(i as int), target@, calls, edges, fv),
        decreases file_coupling.len() - i,
    {
        let (coupled_file, confidence, _co) = (&file_coupling[i].0, file_coupling[i].1, file_coupling[i].2);
        let ghost before = coupling_views(results@);
        let has_static = edge_links_exec(coupled_file, target, call_edges)
            || defines_direct_callee_exec(coupled_file, direct_calls, files);
        let risk = classify_risk(has_static, confidence);
        let ghost fop = functions_of_path(fv, coupled_file@);
        match find_functions_of_path(files, coupled_file) {
            Some(funcs) => {
                let mut k: usize = 0;
                while k < funcs.len()
                    invariant
                        0 <= k <= funcs@.len(),
                        calls == string_views(direct_calls@),
                        fop == Some(def_views(funcs@)),
                        coupling_views(results@) == before + function_entries(
                            def_views(funcs@).take(k as int),
                            coupled_file@,
                            confidence,
                            calls,
                        ),
                    decreases funcs.len() - k,
                {
                    let func = &funcs[k];
                    let func_has_static = calls_contain(direct_calls, &func.name);
                    let func_risk = classify_risk(func_has_static, confidence);
                    let ghost prev = coupling_views(results@);
                    let item = FunctionCoupling {
                        function_name: func.name.clone(),
                        file_path: coupled_file.clone(),
                        confidence,
                        has_static_call: func_has_static,
                        risk_level: func_risk,
                    };
                    assert(item@ == function_entry(func@, coupled_file@, confidence, calls));
                    results.push(item);
                    assert(coupling_views(results@) =~= prev.push(item@));
                    assert(def_views(funcs@).take(k + 1).drop_last() =~= def_views(funcs@).take(k as int));
                    assert(def_views(funcs@).take(k + 1).last() == func@);
                    assert(coupling_views(results@) =~= before + function_entries(
                        def_views(funcs@).take(k + 1),
                        coupled_file@,
                        confidence,
                        calls,
                    ));
                    k += 1;
                }
                assert(def_views(funcs@).take(funcs@.len() as int) =~= def_views(funcs@));
            },
            None => {
                assert(coupling_views(results@) =~= before);
            },
        }
        assert(coupling_views(results@) == before + match fop {
            Some(fs) => function_entries(fs, coupled_file@, confidence, calls),
            None => seq![],
        }) by {
            if fop is None {
                assert(before + seq![] =~= before);
            }
        }
        let ghost mid = coupling_views(results@);
        results.push(
            FunctionCoupling {
                function_name: string_from_str("(file-level)"),
                file_path: coupled_file.clone(),
                confidence,
                has_static_call: has_static,
                risk_level: risk,
            },
        );
        assert(coupling_views(results@) =~= mid.push(coupling_views(results@).last()));
        assert(coupled.take(i + 1).drop_last() =~= coupled.take(i as int));
        assert(coupled.take(i + 1).last() == coupled[i as int]);
        assert(coupled[i as int] == (coupled_file@, confidence, _co));
        assert(coupling_views(results@) =~= before + entries_for_file(
            coupled[i as int],
            target@,
            calls,
            edges,
            fv,
        ));
        i += 1;
    }
    assert(coupled.take(coupled.len() as int) =~= coupled);
    rank_coupling_entries(&results)
}

/// The functions of a source file (see `extract_functions`): none for an
/// unknown language or one without a grammar, else the functions of the
/// file's parse.
pub open spec fn file_functions(path: Seq<char>, source: Seq<char>) -> Seq<FunctionDefView> {
    match language_of_path(path) {
        Some(l) => if has_grammar(l) {
            functions_of_tree(parsed(l, source), path, l)
        } else {
            seq![]
        },
        None => seq![],
    }
}

/// Each file of `files` (path, source) with its functions, in order.
pub open spec fn read_file_functions(files: Seq<(Seq<char>, Seq<char>)>) -> Seq<
    (Seq<char>, Option<Seq<FunctionDefView>>),
> {
    files.map_values(
        |f: (Seq<char>, Seq<char>)| (f.0, Some(file_functions(f.0, f.1))),
    )
}

/// The function-level analysis of a file of language `l` with a grammar:
/// nothing when the file's parse shows no function at the line; else, for
/// the function `target` found there and the calls the parse reads in it,
/// the ranked coupling entries over the functions of every file of `files`.
pub open spec fn function_analysis(
    target_file: Seq<char>,
    target_line: u32,
    source: Seq<char>,
    l: Seq<char>,
    files: Seq<(Seq<char>, Seq<char>)>,
    edges: Seq<CallEdgeView>,
    coupled: Seq<(Seq<char>, Ratio, usize)>,
) -> Seq<FunctionCouplingView> {
    let t = parsed(l, source);
    match function_at_line_of_tree(t, target_file, l, target_line) {
        None => seq![],
        Some(target) => ranked_coupling(
            coupled,
            target,
            calls_of_function_in(t, l, target),
            edges,
            read_file_functions(files),
        ),
    }
}

/// Analyze the function at a line of a file and compute its function-level
/// coupling.
///
/// No entries for a file of unknown language or one without a grammar, nor
/// when no function spans the line. Otherwise the target is the function
/// that `find_function_at_line` finds, its direct calls those that
/// `extract_calls_from_function` reads, and every file of `all_files` is read
/// for its functions (see `extract_functions`); the result is then what
/// `combine_function_coupling` gives. `all_files` and `file_coupling` list
/// distinct paths, as the keys of a map do; the contract holds of any
/// lists, and where a path repeats in `all_files` its first entry is the
/// one read.
pub fn analyze_function_coupling(
    target_file: &str,
    target_line: u32,
    source: &str,
    all_files: &Vec<(String, String)>,
    call_edges: &Vec<CallEdge>,
    file_coupling: &Vec<(String, Ratio, usize)>,
) -> (r: Result<Vec<FunctionCoupling>, AnalyzeError>)
    requires
        target_line >= 1 || !(language_of_path(target_file@) matches Some(l) && has_grammar(l)),
    ensures
        match language_of_path(target_file@) {
            Some(l) => if has_grammar(l) {
                r matches Ok(v) && coupling_views(v@) == function_analysis(
                    target_file@,
                    target_line,
                    source@,
                    l,
                    source_views(all_files@),
                    edge_views(call_edges@),
                    coupling_input_views(file_coupling@),
                )
            } else {
                (r matches Ok(v) && v@.len() == 0)
            },
            None => (r matches Ok(v) && v@.len() == 0),
        },
{
    let target_func = match find_function_at_line(target_file, source, target_line) {
        Err(e) => return Err(e),
        Ok(None) => return Ok(Vec::new()),
        Ok(Some(f)) => f,
    };
    proof {
        if let Some(l) = language_of_path(target_file@) {
            if has_grammar(l) {
                assert(target_func@.file_path == target_file@);
                assert(target_func.start_line >= 1);
            }
        }
    }
    let direct_calls = match extract_calls_from_function(source, &target_func) {
        Err(e) => return Err(e),
        Ok(c) => c,
    };
    let mut files: Vec<FileFunctions> = Vec::new();
    let mut i: usize = 0;
    while i < all_files.len()
        invariant
            0 <= i <= all_files@.len(),
            files@.len() == i,
            forall|j: int|
                0 <= j < i ==> #[trigger] file_functions_views(files@)[j] == (
                    all_files@[j].0@,
                    Some(file_functions(all_files@[j].0@, all_files@[j].1@)),
                ),
        decreases all_files.len() - i,
    {
        let path = &all_files[i].0;
        let source_i = &all_files[i].1;
        let functions = match extract_functions(path.as_str(), source_i.as_str()) {
            Ok(v) => Some(v),
            Err(_) => None,
        };
        let ghost before = file_functions_views(files@);
        let entry = FileFunctions { file_path: path.clone(), functions };
        proof {
            let ev = file_functions_view(entry);
            if let Some(v) = &entry.functions {
                if language_of_path(path@) is None || !has_grammar(language_of_path(path@)->0) {
                    assert(def_views(v@) =~= seq![]);
                }
            }
            assert(ev == (path@, Some(file_functions(path@, source_i@))));
        }
        files.push(entry);
        assert(file_functions_views(files@) =~= before.push(file_functions_view(entry)));
        i += 1;
    }
    let r = combine_function_coupling(&target_func, &direct_calls, call_edges, &files, file_coupling);
    proof {
        let fs = file_functions_views(files@);
        assert(fs =~= read_file_functions(source_views(all_files@)));
    }
    Ok(r)
}

} // verus!
