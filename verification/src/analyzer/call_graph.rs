//! Call graph builder: static analysis of function call relationships.
//!
//! Walks through source files, extracts function definitions and their call
//! sites, then builds a directed graph of call edges. Only edges whose callee
//! is defined in one of the files are included.

use vstd::prelude::*;

use crate::analyzer::calls::{calls_of_function_in, calls_of_function_in_tree, short_call_name};
use crate::analyzer::languages::{has_grammar, language_of_path};
use crate::analyzer::parse::{parse_source, parsed};
use crate::analyzer::syntax::ParsedTree;
use crate::analyzer::{
    def_views, detect_language, edge_views, functions_in_tree, functions_of_tree,
    lemma_functions_of_tree_lines, lines_positive, string_views, CallEdge, CallEdgeView,
    FunctionDef, FunctionDefView,
};
use crate::analyzer::parse::AnalyzeError;
use crate::text::{chars_eq, chars_of, push_str, string_of};

verus! {

// ─── Inputs ──────────────────────────────────────────────────────────────────

/// A function definition with the (short) names of the calls in its body.
pub struct FunctionCalls {
    pub function: FunctionDef,
    pub calls: Vec<String>,
}

/// The functions of one source file, each with its calls.
pub struct FileCalls {
    pub file_path: String,
    pub functions: Vec<FunctionCalls>,
}

/// The value a `FileCalls` holds.
pub struct FileCallsView {
    pub file_path: Seq<char>,
    pub functions: Seq<(FunctionDefView, Seq<Seq<char>>)>,
}

/// The value of one function with its calls.
pub open spec fn function_calls_view(fc: FunctionCalls) -> (FunctionDefView, Seq<Seq<char>>) {
    (fc.function@, string_views(fc.calls@))
}

/// The values of a list of functions with their calls.
pub open spec fn function_calls_views(v: Seq<FunctionCalls>) -> Seq<(FunctionDefView, Seq<Seq<char>>)> {
    v.map_values(|fc: FunctionCalls| function_calls_view(fc))
}

impl View for FileCalls {
    type V = FileCallsView;

    open spec fn view(&self) -> FileCallsView {
        FileCallsView { file_path: self.file_path@, functions: function_calls_views(self.functions@) }
    }
}

/// The values of a list of per-file analyses.
pub open spec fn file_calls_views(v: Seq<FileCalls>) -> Seq<FileCallsView> {
    v.map_values(|f: FileCalls| f@)
}

// ─── Specification ───────────────────────────────────────────────────────────

/// The file defines a function of that name.
pub open spec fn defines(f: FileCallsView, name: Seq<char>) -> bool {
    exists|i: int| 0 <= i < f.functions.len() && (#[trigger] f.functions[i]).0.name == name
}

/// The path of the first file, in order, that defines a function of that name.
pub open spec fn defining_file(files: Seq<FileCallsView>, name: Seq<char>) -> Option<Seq<char>>
    decreases files.len(),
{
    if files.len() == 0 {
        None
    } else if defines(files[0], name) {
        Some(files[0].file_path)
    } else {
        defining_file(files.drop_first(), name)
    }
}

/// The edge one call yields: to the file defining the callee by its full
/// name, else by its short name (then recorded under the short name); none
/// when no file defines either.
pub open spec fn edge_for_call(
    caller: FunctionDefView,
    caller_file: Seq<char>,
    callee: Seq<char>,
    files: Seq<FileCallsView>,
) -> Seq<CallEdgeView> {
    match defining_file(files, callee) {
        Some(f) => seq![
            CallEdgeView {
                caller_name: caller.name,
                caller_file,
                callee_name: callee,
                callee_file: Some(f),
            },
        ],
        None => match defining_file(files, short_call_name(callee)) {
            Some(f) => seq![
                CallEdgeView {
                    caller_name: caller.name,
                    caller_file,
                    callee_name: short_call_name(callee),
                    callee_file: Some(f),
                },
            ],
            None => seq![],
        },
    }
}

/// The edges of a list of calls made by one function, in order.
pub open spec fn edges_for_calls(
    caller: FunctionDefView,
    caller_file: Seq<char>,
    calls: Seq<Seq<char>>,
    files: Seq<FileCallsView>,
) -> Seq<CallEdgeView>
    decreases calls.len(),
{
    if calls.len() == 0 {
        seq![]
    } else {
        edges_for_calls(caller, caller_file, calls.drop_last(), files) + edge_for_call(
            caller,
            caller_file,
            calls.last(),
            files,
        )
    }
}

/// The edges of the functions of one file, in order.
pub open spec fn edges_for_functions(
    functions: Seq<(FunctionDefView, Seq<Seq<char>>)>,
    caller_file: Seq<char>,
    files: Seq<FileCallsView>,
) -> Seq<CallEdgeView>
    decreases functions.len(),
{
    if functions.len() == 0 {
        seq![]
    } else {
        edges_for_functions(functions.drop_last(), caller_file, files) + edges_for_calls(
            functions.last().0,
            caller_file,
            functions.last().1,
            files,
        )
    }
}

/// The edges of a list of files, in order, resolved against `files`.
pub open spec fn edges_for_files(fs: Seq<FileCallsView>, files: Seq<FileCallsView>) -> Seq<
    CallEdgeView,
>
    decreases fs.len(),
{
    if fs.len() == 0 {
        seq![]
    } else {
        edges_for_files(fs.drop_last(), files) + edges_for_functions(
            fs.last().functions,
            fs.last().file_path,
            files,
        )
    }
}

/// The call graph of a set of analyzed files: for each file, function and
/// call in order, the edge to the file that defines the callee.
pub open spec fn call_graph_of(files: Seq<FileCallsView>) -> Seq<CallEdgeView> {
    edges_for_files(files, files)
}

// ─── Resolution ──────────────────────────────────────────────────────────────

/// Whether the file defines a function named `name`.
fn file_defines(f: &FileCalls, name: &Vec<char>) -> (r: bool)
    ensures
        r == defines(f@, name@),
{
    let mut i: usize = 0;
    while i < f.functions.len()
        invariant
            0 <= i <= f.functions@.len(),
            forall|j: int| 0 <= j < i ==> (#[trigger] f@.functions[j]).0.name != name@,
        decreases f.functions.len() - i,
    {
        assert(f@.functions[i as int] == (f.functions@[i as int].function@, string_views(f.functions@[i as int].calls@)));
        if chars_eq(&chars_of(f.functions[i].function.name.as_str()), name) {
            return true;
        }
        i += 1;
    }
    false
}

/// The path of the first file, in order, that defines a function named `name`.
fn find_defining_file<'a>(files: &'a Vec<FileCalls>, name: &Vec<char>) -> (r: Option<&'a String>)
    ensures
        r matches Some(p) ==> defining_file(file_calls_views(files@), name@) == Some(p@),
        r is None ==> defining_file(file_calls_views(files@), name@) is None,
{
    let ghost views = file_calls_views(files@);
    let mut i: usize = 0;
    assert(views.skip(0) =~= views);
    while i < files.len()
        invariant
            0 <= i <= files@.len(),
            views == file_calls_views(files@),
            defining_file(views, name@) == defining_file(views.skip(i as int), name@),
        decreases files.len() - i,
    {
        assert(views.skip(i as int).drop_first() =~= views.skip(i + 1));
        assert(views.skip(i as int)[0] == files@[i as int]@);
        if file_defines(&files[i], name) {
            return Some(&files[i].file_path);
        }
        i += 1;
    }
    None
}

/// Strip qualifiers from a call name to get the short form for resolution.
/// "bound::without_defaults" → "without_defaults";
/// "params.split_for_impl" → "split_for_impl".
pub fn short_name(name: &str) -> (r: String)
    ensures
        r@ == short_call_name(name@),
{
    let short = crate::analyzer::calls::normalize_call_name(&chars_of(name));
    string_of(&short)
}

/// The call graph of a set of analyzed files (see `call_graph_of`).
pub fn call_graph_from_files(files: &Vec<FileCalls>) -> (r: Vec<CallEdge>)
    ensures
        edge_views(r@) == call_graph_of(file_calls_views(files@)),
{
    let ghost all = file_calls_views(files@);
    let mut edges: Vec<CallEdge> = Vec::new();
    let mut i: usize = 0;
    while i < files.len()
        invariant
            0 <= i <= files@.len(),
            all == file_calls_views(files@),
            edge_views(edges@) == edges_for_files(all.take(i as int), all),
        decreases files.len() - i,
    {
        let file = &files[i];
        let ghost fviews = file@.functions;
        let ghost before_file = edge_views(edges@);
        let mut j: usize = 0;
        while j < file.functions.len()
            invariant
                0 <= j <= file.functions@.len(),
                all == file_calls_views(files@),
                i < files@.len(),
                file == files@[i as int],
                fviews == file@.functions,
                edge_views(edges@) == before_file + edges_for_functions(
                    fviews.take(j as int),
                    file.file_path@,
                    all,
                ),
            decreases file.functions.len() - j,
        {
            let fc = &file.functions[j];
            let ghost before_fn = edge_views(edges@);
            let ghost cviews = string_views(fc.calls@);
            let mut k: usize = 0;
            while k < fc.calls.len()
                invariant
                    0 <= k <= fc.calls@.len(),
                    all == file_calls_views(files@),
                    cviews == string_views(fc.calls@),
                    edge_views(edges@) == before_fn + edges_for_calls(
                        fc.function@,
                        file.file_path@,
                        cviews.take(k as int),
                        all,
                    ),
                decreases fc.calls.len() - k,
            {
                let callee = chars_of(fc.calls[k].as_str());
                let ghost pre = edge_views(edges@);
                match find_defining_file(files, &callee) {
                    Some(target) => {
                        edges.push(
                            CallEdge {
                                caller_name: fc.function.name.clone(),
                                caller_file: file.file_path.clone(),
                                callee_name: fc.calls[k].clone(),
                                callee_file: Some(target.clone()),
                            },
                        );
                    },
                    None => {
                        let short = crate::analyzer::calls::normalize_call_name(&callee);
                        match find_defining_file(files, &short) {
                            Some(target) => {
                                edges.push(
                                    CallEdge {
                                        caller_name: fc.function.name.clone(),
                                        caller_file: file.file_path.clone(),
                                        callee_name: string_of(&short),
                                        callee_file: Some(target.clone()),
                                    },
                                );
                            },
                            None => {},
                        }
                    },
                }
                assert(cviews.take(k + 1).drop_last() =~= cviews.take(k as int));
                assert(cviews.take(k + 1).last() == fc.calls@[k as int]@);
                assert(edge_views(edges@) =~= pre + edge_for_call(
                    fc.function@,
                    file.file_path@,
                    cviews[k as int],
                    all,
                ));
                k += 1;
            }
            assert(cviews.take(cviews.len() as int) =~= cviews);
            assert(fviews.take(j + 1).drop_last() =~= fviews.take(j as int));
            assert(fviews.take(j + 1).last() == fviews[j as int]);
            assert(fviews[j as int] == (fc.function@, cviews));
            j += 1;
        }
        assert(fviews.take(fviews.len() as int) =~= fviews);
        assert(all.take(i + 1).drop_last() =~= all.take(i as int));
        assert(all.take(i + 1).last() == file@);
        i += 1;
    }
    assert(all.take(all.len() as int) =~= all);
    edges
}

// ─── Building the graph from sources ─────────────────────────────────────────

/// A function definition paired with the calls read for it from the same tree.
pub open spec fn with_calls(
    t: ParsedTree,
    language: Seq<char>,
    fs: Seq<FunctionDefView>,
) -> Seq<(FunctionDefView, Seq<Seq<char>>)> {
    fs.map_values(|f: FunctionDefView| (f, calls_of_function_in(t, language, f)))
}

/// The analysis of one source file: skipped when the language is unknown;
/// no functions when there is no grammar; otherwise the functions of the
/// file's parse, each with the calls read for it from that parse.
pub open spec fn file_analysis(path: Seq<char>, source: Seq<char>) -> Option<FileCallsView> {
    match language_of_path(path) {
        None => None,
        Some(l) => if !has_grammar(l) {
            Some(FileCallsView { file_path: path, functions: seq![] })
        } else {
            let t = parsed(l, source);
            Some(
                FileCallsView {
                    file_path: path,
                    functions: with_calls(t, l, functions_of_tree(t, path, l)),
                },
            )
        },
    }
}

/// The values of a list of `(path, source)` files.
pub open spec fn source_views(files: Seq<(String, String)>) -> Seq<(Seq<char>, Seq<char>)> {
    files.map_values(|f: (String, String)| (f.0@, f.1@))
}

/// The analyses of a list of `(path, source)` files, in order, skipped
/// files left out.
pub open spec fn file_analyses(files: Seq<(Seq<char>, Seq<char>)>) -> Seq<FileCallsView>
    decreases files.len(),
{
    if files.len() == 0 {
        seq![]
    } else {
        let rest = file_analyses(files.drop_last());
        match file_analysis(files.last().0, files.last().1) {
            Some(a) => rest.push(a),
            None => rest,
        }
    }
}

/// Build a static call graph from a list of `(path, source)` files.
///
/// Each file is parsed once; the result is the call graph of the analyses
/// of the files (see `call_graph_of`). Only edges whose callee is defined
/// in one of the files are included. The paths name distinct files, as the
/// keys of a map do; the contract holds of any list, and where a path
/// repeats, each entry is analysed and a callee resolves to the first
/// entry, in order, that defines it.
pub fn build_call_graph(files: &Vec<(String, String)>) -> (r: Result<Vec<CallEdge>, AnalyzeError>)
    ensures
        r matches Ok(edges) && edge_views(edges@) == call_graph_of(
            file_analyses(source_views(files@)),
        ),
{
    let mut analyses: Vec<FileCalls> = Vec::new();
    let mut i: usize = 0;
    while i < files.len()
        invariant
            0 <= i <= files@.len(),
            file_calls_views(analyses@) == file_analyses(source_views(files@).take(i as int)),
        decreases files.len() - i,
    {
        let (path, source) = (&files[i].0, &files[i].1);
        let ghost prefix = source_views(files@).take(i as int);
        assert(source_views(files@).take(i + 1).drop_last() =~= prefix);
        assert(source_views(files@).take(i + 1).last() == (path@, source@));
        match detect_language(path.as_str()) {
            None => {},
            Some(language) => {
                match parse_source(source.as_str(), language.as_str()) {
                    Err(_) => {},
                    Ok(None) => {
                        analyses.push(FileCalls { file_path: path.clone(), functions: Vec::new() });
                        assert(file_calls_views(analyses@).last().functions =~= seq![]);
                    },
                    Ok(Some(tree)) => {
                        let functions = functions_in_tree(&tree, path.as_str(), language.as_str());
                        proof {
                            lemma_functions_of_tree_lines(tree@, path@, language@);
                        }
                        let mut with: Vec<FunctionCalls> = Vec::new();
                        let mut j: usize = 0;
                        while j < functions.len()
                            invariant
                                0 <= j <= functions@.len(),
                                tree.wf(),
                                tree@ == parsed(language@, source@),
                                def_views(functions@) == functions_of_tree(tree@, path@, language@),
                                lines_positive(def_views(functions@)),
                                function_calls_views(with@) == with_calls(
                                    tree@,
                                    language@,
                                    def_views(functions@).take(j as int),
                                ),
                            decreases functions.len() - j,
                        {
                            assert(def_views(functions@)[j as int] == functions@[j as int]@);
                            let calls = calls_of_function_in_tree(&tree, language.as_str(), &functions[j]);
                            let ghost old_with = function_calls_views(with@);
                            let item = FunctionCalls { function: functions[j].duplicate(), calls };
                            assert(function_calls_view(item) == (
                                def_views(functions@)[j as int],
                                calls_of_function_in(tree@, language@, def_views(functions@)[j as int]),
                            ));
                            with.push(item);
                            assert(function_calls_views(with@) =~= old_with.push(function_calls_view(item)));
                            assert(def_views(functions@).take(j + 1) =~= def_views(functions@).take(j as int).push(def_views(functions@)[j as int]));
                            assert(with_calls(tree@, language@, def_views(functions@).take(j + 1)) =~= with_calls(tree@, language@, def_views(functions@).take(j as int)).push(function_calls_view(item)));
                            j += 1;
                        }
                        assert(def_views(functions@).take(functions@.len() as int) =~= def_views(functions@));
                        analyses.push(FileCalls { file_path: path.clone(), functions: with });
                    },
                }
            },
        }
        assert(file_calls_views(analyses@) =~= file_analyses(source_views(files@).take(i + 1)));
        i += 1;
    }
    assert(source_views(files@).take(files@.len() as int) =~= source_views(files@));
    Ok(call_graph_from_files(&analyses))
}

// ─── Queries on a call graph ─────────────────────────────────────────────────

/// The edges of `edges` whose callee is named `target`, in order.
pub open spec fn callers_of(target: Seq<char>, edges: Seq<CallEdgeView>) -> Seq<CallEdgeView> {
    edges.filter(|e: CallEdgeView| e.callee_name == target)
}

/// The edges of `edges` whose caller is `target_func` in `target_file`, in
/// order.
pub open spec fn callees_of(target_func: Seq<char>, target_file: Seq<char>, edges: Seq<CallEdgeView>) -> Seq<
    CallEdgeView,
> {
    edges.filter(|e: CallEdgeView| e.caller_name == target_func && e.caller_file == target_file)
}

/// Find all edges into a target function (its direct callers).
pub fn find_callers_of(target_func: &str, edges: &Vec<CallEdge>) -> (r: Vec<CallEdge>)
    ensures
        edge_views(r@) == callers_of(target_func@, edge_views(edges@)),
{
    let ghost all = edge_views(edges@);
    let mut out: Vec<CallEdge> = Vec::new();
    let mut i: usize = 0;
    while i < edges.len()
        invariant
            0 <= i <= edges@.len(),
            all == edge_views(edges@),
            edge_views(out@) == callers_of(target_func@, all.take(i as int)),
        decreases edges.len() - i,
    {
        let e = &edges[i];
        assert(all.take(i + 1).drop_last() =~= all.take(i as int));
        assert(all.take(i + 1).last() == e@);
        reveal(Seq::filter);
        if crate::text::str_eq(e.callee_name.as_str(), target_func) {
            out.push(e.duplicate());
            assert(edge_views(out@) =~= callers_of(target_func@, all.take(i as int)).push(e@));
        }
        i += 1;
    }
    assert(all.take(all.len() as int) =~= all);
    out
}

/// Find all edges out of a target function (its direct callees).
pub fn find_callees_of(target_func: &str, target_file: &str, edges: &Vec<CallEdge>) -> (r: Vec<
    CallEdge,
>)
    ensures
        edge_views(r@) == callees_of(target_func@, target_file@, edge_views(edges@)),
{
    let ghost all = edge_views(edges@);
    let mut out: Vec<CallEdge> = Vec::new();
    let mut i: usize = 0;
    while i < edges.len()
        invariant
            0 <= i <= edges@.len(),
            all == edge_views(edges@),
            edge_views(out@) == callees_of(target_func@, target_file@, all.take(i as int)),
        decreases edges.len() - i,
    {
        let e = &edges[i];
        assert(all.take(i + 1).drop_last() =~= all.take(i as int));
        assert(all.take(i + 1).last() == e@);
        reveal(Seq::filter);
        if crate::text::str_eq(e.caller_name.as_str(), target_func) && crate::text::str_eq(
            e.caller_file.as_str(),
            target_file,
        ) {
            out.push(e.duplicate());
            assert(edge_views(out@) =~= callees_of(target_func@, target_file@, all.take(i as int)).push(
                e@,
            ));
        }
        i += 1;
    }
    assert(all.take(all.len() as int) =~= all);
    out
}

/// The `file::function` names in the target's file that have a static
/// dependency on the target: the functions of that file that call a
/// function of the target's name, and the functions of that file that the
/// target calls.
pub open spec fn static_dependency(
    d: Seq<char>,
    target_func: Seq<char>,
    target_file: Seq<char>,
    edges: Seq<CallEdgeView>,
) -> bool {
    exists|i: int| 0 <= i < edges.len() && edge_dependency(d, #[trigger] edges[i], target_func, target_file)
}

/// The `file::function` name `d` is one that edge `e` gives the target.
pub open spec fn edge_dependency(
    d: Seq<char>,
    e: CallEdgeView,
    target_func: Seq<char>,
    target_file: Seq<char>,
) -> bool {
    ||| (e.callee_name == target_func && e.caller_file == target_file && d == e.caller_file
        + "::"@ + e.caller_name)
    ||| (e.caller_name == target_func && e.caller_file == target_file && e.callee_file == Some(
        target_file,
    ) && d == target_file + "::"@ + e.callee_name)
}

/// `file::name` as a `String`.
fn qualified(file: &String, name: &String) -> (r: String)
    ensures
        r@ == file@ + "::"@ + name@,
{
    let mut s = file.clone();
    push_str(&mut s, "::");
    push_str(&mut s, name.as_str());
    s
}

/// Adds `s` to `out` unless it is there already.
fn insert_unique(out: &mut Vec<String>, s: String)
    ensures
        forall|d: Seq<char>|
            string_views(final(out)@).contains(d) <==> (string_views(old(out)@).contains(d) || d
                == s@),
        string_views(old(out)@).no_duplicates() ==> string_views(final(out)@).no_duplicates(),
{
    let ghost before = string_views(out@);
    let mut i: usize = 0;
    while i < out.len()
        invariant
            0 <= i <= out@.len(),
            before == string_views(out@),
            before == string_views(old(out)@),
            forall|j: int| 0 <= j < i ==> before[j] != s@,
        decreases out.len() - i,
    {
        if chars_eq(&chars_of(out[i].as_str()), &chars_of(s.as_str())) {
            assert(before[i as int] == s@);
            return;
        }
        i += 1;
    }
    let ghost sv = s@;
    out.push(s);
    assert(string_views(out@) =~= before.push(sv));
    assert forall|d: Seq<char>| string_views(out@).contains(d) <==> (before.contains(d) || d == sv) by {
        if string_views(out@).contains(d) {
            let k = choose|k: int| 0 <= k < string_views(out@).len() && string_views(out@)[k] == d;
            if k < before.len() {
                assert(before[k] == d);
            }
        }
        if before.contains(d) {
            let k = choose|k: int| 0 <= k < before.len() && before[k] == d;
            assert(string_views(out@)[k] == d);
        }
        if d == sv {
            assert(string_views(out@)[before.len() as int] == d);
        }
    }
}

/// Find all functions in the same file that have a static dependency on
/// the target function (calling it or being called by it), as
/// `file::function` names. Each name is given once; the order is that in
/// which the edges first show it.
pub fn find_static_dependencies(target_func: &str, target_file: &str, edges: &Vec<CallEdge>) -> (r:
    Vec<String>)
    ensures
        string_views(r@).no_duplicates(),
        forall|d: Seq<char>|
            string_views(r@).contains(d) <==> static_dependency(
                d,
                target_func@,
                target_file@,
                edge_views(edges@),
            ),
{
    let ghost all = edge_views(edges@);
    let mut deps: Vec<String> = Vec::new();
    let mut i: usize = 0;
    while i < edges.len()
        invariant
            0 <= i <= edges@.len(),
            all == edge_views(edges@),
            string_views(deps@).no_duplicates(),
            forall|d: Seq<char>|
                string_views(deps@).contains(d) <==> static_dependency(
                    d,
                    target_func@,
                    target_file@,
                    all.take(i as int),
                ),
        decreases edges.len() - i,
    {
        let edge = &edges[i];
        let ghost prev = string_views(deps@);
        let in_file = crate::text::str_eq(edge.caller_file.as_str(), target_file);
        if in_file && crate::text::str_eq(edge.callee_name.as_str(), target_func) {
            insert_unique(&mut deps, qualified(&edge.caller_file, &edge.caller_name));
        }
        if in_file && crate::text::str_eq(edge.caller_name.as_str(), target_func) {
            if let Some(callee_file) = &edge.callee_file {
                if crate::text::str_eq(callee_file.as_str(), target_file) {
                    insert_unique(&mut deps, qualified(callee_file, &edge.callee_name));
                }
            }
        }
        proof {
            let t1 = all.take(i + 1);
            let t0 = all.take(i as int);
            assert(t1[i as int] == edge@);
            assert forall|d: Seq<char>|
                string_views(deps@).contains(d) <==> static_dependency(
                    d,
                    target_func@,
                    target_file@,
                    t1,
                ) by {
                if static_dependency(d, target_func@, target_file@, t1) {
                    let k = choose|k: int|
                        0 <= k < t1.len() && edge_dependency(d, #[trigger] t1[k], target_func@, target_file@);
                    if k < i {
                        assert(t0[k] == t1[k]);
                    }
                }
                if static_dependency(d, target_func@, target_file@, t0) {
                    let k = choose|k: int|
                        0 <= k < t0.len() && edge_dependency(d, #[trigger] t0[k], target_func@, target_file@);
                    assert(t1[k] == t0[k]);
                }
                if edge_dependency(d, edge@, target_func@, target_file@) {
                    assert(edge_dependency(d, t1[i as int], target_func@, target_file@));
                }
            }
        }
        i += 1;
    }
    assert(all.take(all.len() as int) =~= all);
    deps
}

} // verus!
