//! Laws that tie the analyzer's operations to one another: the function
//! found at a line is one of the file's functions, a diff selects the
//! functions it overlaps, and every call edge joins functions that the
//! files define.

use vstd::prelude::*;

use crate::analyzer::call_graph::{
    call_graph_of, defines, defining_file, edge_for_call, edges_for_calls, edges_for_files,
    edges_for_functions, file_analyses, file_analysis, with_calls, FileCallsView,
};
use crate::analyzer::calls::{own_call, simple_noise};
use crate::analyzer::coupling::{
    coupling_entries, entries_for_file, file_functions, insert_ranked, rank_entries,
    ranked_coupling, FunctionCouplingView,
};
use crate::analyzer::languages::{language_for_extension, language_of_path};
use crate::analyzer::parse::parsed;
use crate::analyzer::syntax::{node_text, nth_child, SyntaxNode};
use crate::ratio::{ratio_ge, Ratio};
use crate::text::{after_last_char, before_char, lemma_rfind_char_props, lowered, rfind_char};
use crate::analyzer::{
    def_of, function_at_line_of_tree, function_node_search, functions_below, functions_of_tree,
    own_function, touched_by, touched_functions, CallEdgeView, FunctionDefView, RiskLevel,
};

verus! {

/// Some function of `fs` has that name.
pub open spec fn names_function(fs: Seq<FunctionDefView>, name: Seq<char>) -> bool {
    exists|m: int| 0 <= m < fs.len() && (#[trigger] fs[m]).name == name
}

/// The edge starts at a function that one of the files (path, source)
/// defines, and ends at a function that one of them defines, with the
/// callee's file recorded.
pub open spec fn edge_defined(e: CallEdgeView, files: Seq<(Seq<char>, Seq<char>)>) -> bool {
    &&& exists|i: int|
        0 <= i < files.len() && (#[trigger] files[i]).0 == e.caller_file && names_function(
            file_functions(files[i].0, files[i].1),
            e.caller_name,
        )
    &&& exists|j: int|
        0 <= j < files.len() && e.callee_file == Some((#[trigger] files[j]).0) && names_function(
            file_functions(files[j].0, files[j].1),
            e.callee_name,
        )
}

/// The search finds a function node whose rows span the row, and the
/// definition it gives is listed among those of the subtree.
proof fn lemma_search_listed(
    node: SyntaxNode,
    parent: Option<SyntaxNode>,
    i: nat,
    row: int,
    text: Seq<char>,
    file_path: Seq<char>,
    language: Seq<char>,
)
    ensures
        function_node_search(node, parent, i, row, language) matches Some((f, p)) ==> (own_function(
            node,
            parent,
            text,
            file_path,
            language,
        ) + functions_below(node, i, text, file_path, language)).contains(
            def_of(f, p, text, file_path, language),
        ) && f.start_row <= row <= f.end_row,
    decreases node, node.children@.len() - i,
{
    if !(node.start_row > row || node.end_row < row) {
        let own = own_function(node, parent, text, file_path, language);
        let all = own + functions_below(node, i, text, file_path, language);
        if i >= node.children@.len() {
            if let Some((f, p)) = function_node_search(node, parent, i, row, language) {
                assert(all[0] == def_of(f, p, text, file_path, language));
            }
        } else {
            let c = node.children@[i as int];
            lemma_search_listed(c, Some(node), 0, row, text, file_path, language);
            lemma_search_listed(node, parent, i + 1, row, text, file_path, language);
            let a = own_function(c, Some(node), text, file_path, language) + functions_below(
                c,
                0,
                text,
                file_path,
                language,
            );
            let rest = functions_below(node, i + 1, text, file_path, language);
            assert(functions_below(node, i, text, file_path, language) == a + rest);
            if let Some((f, p)) = function_node_search(node, parent, i, row, language) {
                let x = def_of(f, p, text, file_path, language);
                match function_node_search(c, Some(node), 0, row, language) {
                    Some(found) => {
                        let m = choose|m: int| 0 <= m < a.len() && a[m] == x;
                        assert(all[own.len() + m] == x);
                    },
                    None => {
                        let m = choose|m: int| 0 <= m < (own + rest).len() && (own + rest)[m] == x;
                        if m < own.len() {
                            assert(all[m] == x);
                        } else {
                            assert(all[own.len() + a.len() + (m - own.len())] == x);
                        }
                    },
                }
            }
        }
    }
}

/// The function found at a line of a file (see `find_function_at_line`) is
/// one of the file's functions (see `extract_functions`), and its lines
/// include the line.
pub proof fn law_found_function_is_listed(
    language: Seq<char>,
    source: Seq<char>,
    file_path: Seq<char>,
    line: u32,
)
    requires
        line >= 1,
    ensures
        function_at_line_of_tree(parsed(language, source), file_path, language, line) matches Some(g)
            ==> functions_of_tree(parsed(language, source), file_path, language).contains(g)
            && g.start_line <= line <= g.end_line,
{
    let t = parsed(language, source);
    lemma_search_listed(t.root, None, 0, line - 1, t.text, file_path, language);
}

/// The functions a set of diff ranges selects (see `map_diff_to_functions`)
/// are exactly those of the file's functions that some range overlaps, in
/// the file's order, each once.
pub proof fn law_touched_is_filter(fs: Seq<FunctionDefView>, ranges: Seq<(u32, u32)>)
    ensures
        touched_functions(fs, ranges) == fs.filter(|f: FunctionDefView| touched_by(f, ranges)),
    decreases fs.len(),
{
    reveal(Seq::filter);
    if fs.len() > 0 {
        law_touched_is_filter(fs.drop_last(), ranges);
    }
}

/// The file that `defining_file` names is one of the files, and defines the
/// name.
proof fn lemma_defining_file(files: Seq<FileCallsView>, name: Seq<char>)
    ensures
        defining_file(files, name) matches Some(p) ==> exists|j: int|
            0 <= j < files.len() && (#[trigger] files[j]).file_path == p && defines(files[j], name),
    decreases files.len(),
{
    if files.len() > 0 && !defines(files[0], name) {
        lemma_defining_file(files.drop_first(), name);
        if let Some(p) = defining_file(files, name) {
            let j = choose|j: int|
                0 <= j < files.drop_first().len() && (#[trigger] files.drop_first()[j]).file_path == p
                    && defines(files.drop_first()[j], name);
            assert(files[j + 1] == files.drop_first()[j]);
        }
    }
}

/// The callee of an edge is defined by the file the edge records.
pub open spec fn callee_defined(e: CallEdgeView, files: Seq<FileCallsView>) -> bool {
    exists|j: int|
        0 <= j < files.len() && e.callee_file == Some((#[trigger] files[j]).file_path) && defines(
            files[j],
            e.callee_name,
        )
}

proof fn lemma_edges_for_calls(
    caller: FunctionDefView,
    caller_file: Seq<char>,
    calls: Seq<Seq<char>>,
    files: Seq<FileCallsView>,
)
    ensures
        forall|k: int|
            0 <= k < edges_for_calls(caller, caller_file, calls, files).len() ==> {
                let e = #[trigger] edges_for_calls(caller, caller_file, calls, files)[k];
                e.caller_name == caller.name && e.caller_file == caller_file && callee_defined(e, files)
            },
    decreases calls.len(),
{
    if calls.len() > 0 {
        lemma_edges_for_calls(caller, caller_file, calls.drop_last(), files);
        let callee = calls.last();
        lemma_defining_file(files, callee);
        lemma_defining_file(files, crate::analyzer::calls::short_call_name(callee));
        let front = edges_for_calls(caller, caller_file, calls.drop_last(), files);
        let back = edge_for_call(caller, caller_file, callee, files);
        let all = edges_for_calls(caller, caller_file, calls, files);
        assert(all == front + back);
        assert forall|k: int| 0 <= k < all.len() implies {
            let e = #[trigger] all[k];
            e.caller_name == caller.name && e.caller_file == caller_file && callee_defined(e, files)
        } by {
            if k < front.len() {
                assert(all[k] == front[k]);
            } else {
                assert(all[k] == back[k - front.len()]);
            }
        }
    }
}

proof fn lemma_edges_for_functions(
    functions: Seq<(FunctionDefView, Seq<Seq<char>>)>,
    caller_file: Seq<char>,
    files: Seq<FileCallsView>,
)
    ensures
        forall|k: int|
            0 <= k < edges_for_functions(functions, caller_file, files).len() ==> {
                let e = #[trigger] edges_for_functions(functions, caller_file, files)[k];
                &&& e.caller_file == caller_file
                &&& exists|m: int| 0 <= m < functions.len() && (#[trigger] functions[m]).0.name == e.caller_name
                &&& callee_defined(e, files)
            },
    decreases functions.len(),
{
    if functions.len() > 0 {
        let init = functions.drop_last();
        lemma_edges_for_functions(init, caller_file, files);
        lemma_edges_for_calls(functions.last().0, caller_file, functions.last().1, files);
        let front = edges_for_functions(init, caller_file, files);
        let back = edges_for_calls(functions.last().0, caller_file, functions.last().1, files);
        let all = edges_for_functions(functions, caller_file, files);
        assert(all == front + back);
        assert forall|k: int| 0 <= k < all.len() implies {
            let e = #[trigger] all[k];
            &&& e.caller_file == caller_file
            &&& exists|m: int| 0 <= m < functions.len() && (#[trigger] functions[m]).0.name == e.caller_name
            &&& callee_defined(e, files)
        } by {
            if k < front.len() {
                assert(all[k] == front[k]);
                let m = choose|m: int| 0 <= m < init.len() && (#[trigger] init[m]).0.name == all[k].caller_name;
                assert(functions[m] == init[m]);
            } else {
                assert(all[k] == back[k - front.len()]);
                assert(functions[functions.len() - 1] == functions.last());
            }
        }
    }
}

proof fn lemma_edges_for_files(fs: Seq<FileCallsView>, files: Seq<FileCallsView>)
    ensures
        forall|k: int|
            0 <= k < edges_for_files(fs, files).len() ==> {
                let e = #[trigger] edges_for_files(fs, files)[k];
                &&& exists|i: int|
                    0 <= i < fs.len() && (#[trigger] fs[i]).file_path == e.caller_file && defines(
                        fs[i],
                        e.caller_name,
                    )
                &&& callee_defined(e, files)
            },
    decreases fs.len(),
{
    if fs.len() > 0 {
        let init = fs.drop_last();
        lemma_edges_for_files(init, files);
        lemma_edges_for_functions(fs.last().functions, fs.last().file_path, files);
        let front = edges_for_files(init, files);
        let back = edges_for_functions(fs.last().functions, fs.last().file_path, files);
        let all = edges_for_files(fs, files);
        assert(all == front + back);
        assert forall|k: int| 0 <= k < all.len() implies {
            let e = #[trigger] all[k];
            &&& exists|i: int|
                0 <= i < fs.len() && (#[trigger] fs[i]).file_path == e.caller_file && defines(
                    fs[i],
                    e.caller_name,
                )
            &&& callee_defined(e, files)
        } by {
            if k < front.len() {
                assert(all[k] == front[k]);
                let i = choose|i: int|
                    0 <= i < init.len() && (#[trigger] init[i]).file_path == all[k].caller_file
                        && defines(init[i], all[k].caller_name);
                assert(fs[i] == init[i]);
            } else {
                assert(all[k] == back[k - front.len()]);
                let last = fs.len() - 1;
                assert(fs[last] == fs.last());
                let m = choose|m: int|
                    0 <= m < fs.last().functions.len() && (#[trigger] fs.last().functions[m]).0.name
                        == all[k].caller_name;
                assert(defines(fs[last], all[k].caller_name));
            }
        }
    }
}

/// Each analysis of `file_analyses` is that of one of the files, and the
/// functions it defines are the file's functions.
proof fn lemma_analyses_from_files(files: Seq<(Seq<char>, Seq<char>)>)
    ensures
        forall|k: int|
            0 <= k < file_analyses(files).len() ==> exists|i: int|
                0 <= i < files.len() && (#[trigger] file_analyses(files)[k]).file_path == files[i].0
                    && forall|name: Seq<char>|
                    #[trigger] defines(file_analyses(files)[k], name) ==> names_function(
                        file_functions(files[i].0, files[i].1),
                        name,
                    ),
    decreases files.len(),
{
    if files.len() > 0 {
        let init = files.drop_last();
        lemma_analyses_from_files(init);
        let rest = file_analyses(init);
        let last = files.len() - 1;
        assert(files[last] == files.last());
        assert forall|k: int| 0 <= k < file_analyses(files).len() implies exists|i: int|
            0 <= i < files.len() && (#[trigger] file_analyses(files)[k]).file_path == files[i].0
                && forall|name: Seq<char>|
                #[trigger] defines(file_analyses(files)[k], name) ==> names_function(
                    file_functions(files[i].0, files[i].1),
                    name,
                ) by {
            if k < rest.len() {
                assert(file_analyses(files)[k] == rest[k]);
                let i = choose|i: int|
                    0 <= i < init.len() && (#[trigger] rest[k]).file_path == init[i].0 && forall|
                        name: Seq<char>,
                    |
                        #[trigger] defines(rest[k], name) ==> names_function(
                            file_functions(init[i].0, init[i].1),
                            name,
                        );
                assert(files[i] == init[i]);
            } else {
                let a = file_analysis(files.last().0, files.last().1)->0;
                assert(file_analyses(files)[k] == a);
                assert forall|name: Seq<char>| #[trigger] defines(a, name) implies names_function(
                    file_functions(files[last].0, files[last].1),
                    name,
                ) by {
                    let m = choose|m: int| 0 <= m < a.functions.len() && (#[trigger] a.functions[m]).0.name == name;
                    let l = language_of_path(files.last().0)->0;
                    let t = parsed(l, files.last().1);
                    let fs = functions_of_tree(t, files.last().0, l);
                    assert(a.functions == with_calls(t, l, fs));
                    assert(fs[m].name == name);
                }
            }
        }
    }
}

/// Every edge of the call graph of a list of files (see
/// `build_call_graph`) goes from a function that the caller's file defines
/// to a function that the callee's file defines (see `extract_functions`):
/// calls that no file resolves give no edge.
pub proof fn law_call_graph_edges_are_defined(files: Seq<(Seq<char>, Seq<char>)>)
    ensures
        forall|k: int|
            0 <= k < call_graph_of(file_analyses(files)).len() ==> edge_defined(
                #[trigger] call_graph_of(file_analyses(files))[k],
                files,
            ),
{
    let fa = file_analyses(files);
    lemma_edges_for_files(fa, fa);
    lemma_analyses_from_files(files);
    assert forall|k: int| 0 <= k < call_graph_of(fa).len() implies edge_defined(
        #[trigger] call_graph_of(fa)[k],
        files,
    ) by {
        let e = call_graph_of(fa)[k];
        let i = choose|i: int|
            0 <= i < fa.len() && (#[trigger] fa[i]).file_path == e.caller_file && defines(fa[i], e.caller_name);
        let j = choose|j: int|
            0 <= j < fa.len() && e.callee_file == Some((#[trigger] fa[j]).file_path) && defines(
                fa[j],
                e.callee_name,
            );
        let fi = choose|x: int|
            0 <= x < files.len() && (#[trigger] fa[i]).file_path == files[x].0 && forall|name: Seq<char>|
                #[trigger] defines(fa[i], name) ==> names_function(file_functions(files[x].0, files[x].1), name);
        let fj = choose|x: int|
            0 <= x < files.len() && (#[trigger] fa[j]).file_path == files[x].0 && forall|name: Seq<char>|
                #[trigger] defines(fa[j], name) ==> names_function(file_functions(files[x].0, files[x].1), name);
        assert(files[fi].0 == e.caller_file);
        assert(e.callee_file == Some(files[fj].0));
    }
}

// ─── Diff ranges ─────────────────────────────────────────────────────────────

/// A function is among those a set of diff ranges selects (see
/// `map_diff_to_functions`) exactly when it is one of the file's functions
/// and some range, any of them, overlaps its lines: starts at or before its
/// last line and ends at or after its first.
pub proof fn law_touched_iff_some_range_overlaps(
    fs: Seq<FunctionDefView>,
    ranges: Seq<(u32, u32)>,
    f: FunctionDefView,
)
    ensures
        touched_functions(fs, ranges).contains(f) <==> (fs.contains(f) && exists|j: int|
            0 <= j < ranges.len() && (#[trigger] ranges[j]).0 <= f.end_line && ranges[j].1
                >= f.start_line),
    decreases fs.len(),
{
    if fs.len() > 0 {
        let init = fs.drop_last();
        law_touched_iff_some_range_overlaps(init, ranges, f);
        let rest = touched_functions(init, ranges);
        assert(fs =~= init.push(fs.last()));
        assert(fs.contains(f) <==> (init.contains(f) || fs.last() == f)) by {
            if fs.contains(f) {
                let k = choose|k: int| 0 <= k < fs.len() && fs[k] == f;
                if k < init.len() {
                    assert(init[k] == f);
                }
            }
            if init.contains(f) {
                let k = choose|k: int| 0 <= k < init.len() && init[k] == f;
                assert(fs[k] == f);
            }
            if fs.last() == f {
                assert(fs[fs.len() - 1] == f);
            }
        }
        if touched_by(fs.last(), ranges) {
            assert(touched_functions(fs, ranges) == rest.push(fs.last()));
            assert(rest.push(fs.last()).contains(f) <==> (rest.contains(f) || fs.last() == f)) by {
                let t = rest.push(fs.last());
                if t.contains(f) {
                    let k = choose|k: int| 0 <= k < t.len() && t[k] == f;
                    if k < rest.len() {
                        assert(rest[k] == f);
                    }
                }
                if rest.contains(f) {
                    let k = choose|k: int| 0 <= k < rest.len() && rest[k] == f;
                    assert(t[k] == f);
                }
                if fs.last() == f {
                    assert(t[rest.len() as int] == f);
                }
            }
        } else {
            assert(touched_functions(fs, ranges) == rest);
        }
    }
}

// ─── Noise calls ─────────────────────────────────────────────────────────────

/// A Rust call whose callee is written without `::` and whose name, up to
/// any `<`, is a bare noise name (a variant constructor such as `Some`,
/// `None`, `Ok`, `Err`, a macro-like name such as `panic`, or `new` and
/// `default`) is noise: it adds no call name.
pub proof fn law_unqualified_noise_calls_dropped(node: SyntaxNode, text: Seq<char>)
    ensures
        node.kind@ == "call_expression"@ && (nth_child(node, 0) matches Some(callee) && {
            let t = node_text(text, callee);
            &&& forall|i: int| 0 <= i < t.len() - 1 ==> !(#[trigger] t[i] == ':' && t[i + 1] == ':')
            &&& seq![
                "panic"@, "println"@, "eprintln"@, "format"@, "vec"@,
                "assert"@, "assert_eq"@, "assert_ne"@,
                "todo"@, "unimplemented"@, "unreachable"@,
                "cfg"@, "env"@, "include_str"@, "include_bytes"@,
                "Some"@, "None"@, "Ok"@, "Err"@,
                "new"@, "default"@,
            ].contains(before_char(t, '<'))
        }) ==> own_call(node, text, "rust"@) == Seq::<Seq<char>>::empty(),
{
    if node.kind@ == "call_expression"@ {
        if let Some(callee) = nth_child(node, 0) {
            let t = node_text(text, callee);
            if forall|i: int| 0 <= i < t.len() - 1 ==> !(#[trigger] t[i] == ':' && t[i + 1] == ':') {
                assert(!crate::text::has_infix(t, "::"@)) by {
                    reveal_strlit("::");
                    if crate::text::has_infix(t, "::"@) {
                        let i = choose|i: int|
                            0 <= i && i + "::"@.len() <= t.len() && #[trigger] t.subrange(i, i + "::"@.len()) == "::"@;
                        assert(t.subrange(i, i + 2)[0] == t[i]);
                        assert(t.subrange(i, i + 2)[1] == t[i + 1]);
                    }
                }
            }
            assert(simple_noise() =~= seq![
                "panic"@, "println"@, "eprintln"@, "format"@, "vec"@,
                "assert"@, "assert_eq"@, "assert_ne"@,
                "todo"@, "unimplemented"@, "unreachable"@,
                "cfg"@, "env"@, "include_str"@, "include_bytes"@,
                "Some"@, "None"@, "Ok"@, "Err"@,
                "new"@, "default"@,
            ]);
        }
    }
}

// ─── Languages ───────────────────────────────────────────────────────────────

/// The file extensions the project documents, each with the language it
/// names: Rust, JavaScript, TypeScript, TSX, Python, Go, Java, C and C++.
pub open spec fn documented_extensions() -> Seq<(Seq<char>, Seq<char>)> {
    seq![
        ("rs"@, "rust"@),
        ("js"@, "javascript"@), ("jsx"@, "javascript"@), ("mjs"@, "javascript"@),
        ("cjs"@, "javascript"@),
        ("ts"@, "typescript"@),
        ("tsx"@, "tsx"@),
        ("py"@, "python"@), ("pyw"@, "python"@), ("pyi"@, "python"@),
        ("go"@, "go"@),
        ("java"@, "java"@),
        ("c"@, "c"@), ("h"@, "c"@),
        ("cpp"@, "cpp"@), ("cc"@, "cpp"@), ("cxx"@, "cpp"@), ("hpp"@, "cpp"@), ("hxx"@, "cpp"@),
    ]
}

/// The extension of `stem.ext`, for an `ext` without a dot, is `ext`.
proof fn lemma_extension_of(stem: Seq<char>, ext: Seq<char>)
    requires
        !ext.contains('.'),
    ensures
        (stem + "."@ + ext).contains('.'),
        after_last_char(stem + "."@ + ext, '.') == ext,
{
    reveal_strlit(".");
    let p = stem + "."@ + ext;
    let d = stem.len() as int;
    assert(p[d] == '.');
    lemma_rfind_char_props(p, '.');
    let r = rfind_char(p, '.');
    if r < d {
        assert(false);
    }
    if r > d {
        assert(p[r] == ext[r - d - 1]);
        assert(ext.contains('.'));
    }
    assert(r == d);
    assert(p.skip(d + 1) =~= ext);
}

/// A path whose extension (the text after its last `.`), ignoring case, is
/// one the project documents has that extension's language, whatever comes
/// before the dot: `main.c` and `x.H` are C, `lib.rs` is Rust.
pub proof fn law_documented_extensions_name_languages(stem: Seq<char>, ext: Seq<char>, k: int)
    requires
        0 <= k < documented_extensions().len(),
        !ext.contains('.'),
        lowered(ext) == documented_extensions()[k].0,
    ensures
        language_of_path(stem + "."@ + ext) == Some(documented_extensions()[k].1),
{
    lemma_extension_of(stem, ext);
    if k == 0 {
        assert(documented_extensions()[k] == ("rs"@, "rust"@));
        reveal_strlit("rs");
        assert(language_for_extension("rs"@) == Some("rust"@));
    } else if k == 1 {
        assert(documented_extensions()[k] == ("js"@, "javascript"@));
        reveal_strlit("js");
        reveal_strlit("rs");
        assert("js"@[0] != "rs"@[0]);
        assert("js"@ != "rs"@);
        assert(language_for_extension("js"@) == Some("javascript"@));
    } else if k == 2 {
        assert(documented_extensions()[k] == ("jsx"@, "javascript"@));
        reveal_strlit("jsx");
        reveal_strlit("rs");
        assert("jsx"@.len() != "rs"@.len());
        assert("jsx"@ != "rs"@);
        reveal_strlit("js");
        assert("jsx"@.len() != "js"@.len());
        assert("jsx"@ != "js"@);
        assert(language_for_extension("jsx"@) == Some("javascript"@));
    } else if k == 3 {
        assert(documented_extensions()[k] == ("mjs"@, "javascript"@));
        reveal_strlit("mjs");
        reveal_strlit("rs");
        assert("mjs"@.len() != "rs"@.len());
        assert("mjs"@ != "rs"@);
        reveal_strlit("js");
        assert("mjs"@.len() != "js"@.len());
        assert("mjs"@ != "js"@);
        reveal_strlit("jsx");
        assert("mjs"@[0] != "jsx"@[0]);
        assert("mjs"@ != "jsx"@);
        assert(language_for_extension("mjs"@) == Some("javascript"@));
    } else if k == 4 {
        assert(documented_extensions()[k] == ("cjs"@, "javascript"@));
        reveal_strlit("cjs");
        reveal_strlit("rs");
        assert("cjs"@.len() != "rs"@.len());
        assert("cjs"@ != "rs"@);
        reveal_strlit("js");
        assert("cjs"@.len() != "js"@.len());
        assert("cjs"@ != "js"@);
        reveal_strlit("jsx");
        assert("cjs"@[0] != "jsx"@[0]);
        assert("cjs"@ != "jsx"@);
        reveal_strlit("mjs");
        assert("cjs"@[0] != "mjs"@[0]);
        assert("cjs"@ != "mjs"@);
        assert(language_for_extension("cjs"@) == Some("javascript"@));
    } else if k == 5 {
        assert(documented_extensions()[k] == ("ts"@, "typescript"@));
        reveal_strlit("ts");
        reveal_strlit("rs");
        assert("ts"@[0] != "rs"@[0]);
        assert("ts"@ != "rs"@);
        reveal_strlit("js");
        assert("ts"@[0] != "js"@[0]);
        assert("ts"@ != "js"@);
        reveal_strlit("jsx");
        assert("ts"@.len() != "jsx"@.len());
        assert("ts"@ != "jsx"@);
        reveal_strlit("mjs");
        assert("ts"@.len() != "mjs"@.len());
        assert("ts"@ != "mjs"@);
        reveal_strlit("cjs");
        assert("ts"@.len() != "cjs"@.len());
        assert("ts"@ != "cjs"@);
        assert(language_for_extension("ts"@) == Some("typescript"@));
    } else if k == 6 {
        assert(documented_extensions()[k] == ("tsx"@, "tsx"@));
        reveal_strlit("tsx");
        reveal_strlit("rs");
        assert("tsx"@.len() != "rs"@.len());
        assert("tsx"@ != "rs"@);
        reveal_strlit("js");
        assert("tsx"@.len() != "js"@.len());
        assert("tsx"@ != "js"@);
        reveal_strlit("jsx");
        assert("tsx"@[0] != "jsx"@[0]);
        assert("tsx"@ != "jsx"@);
        reveal_strlit("mjs");
        assert("tsx"@[0] != "mjs"@[0]);
        assert("tsx"@ != "mjs"@);
        reveal_strlit("cjs");
        assert("tsx"@[0] != "cjs"@[0]);
        assert("tsx"@ != "cjs"@);
        reveal_strlit("ts");
        assert("tsx"@.len() != "ts"@.len());
        assert("tsx"@ != "ts"@);
        assert(language_for_extension("tsx"@) == Some("tsx"@));
    } else if k == 7 {
        assert(documented_extensions()[k] == ("py"@, "python"@));
        reveal_strlit("py");
        reveal_strlit("rs");
        assert("py"@[0] != "rs"@[0]);
        assert("py"@ != "rs"@);
        reveal_strlit("js");
        assert("py"@[0] != "js"@[0]);
        assert("py"@ != "js"@);
        reveal_strlit("jsx");
        assert("py"@.len() != "jsx"@.len());
        assert("py"@ != "jsx"@);
        reveal_strlit("mjs");
        assert("py"@.len() != "mjs"@.len());
        assert("py"@ != "mjs"@);
        reveal_strlit("cjs");
        assert("py"@.len() != "cjs"@.len());
        assert("py"@ != "cjs"@);
        reveal_strlit("ts");
        assert("py"@[0] != "ts"@[0]);
        assert("py"@ != "ts"@);
        reveal_strlit("tsx");
        assert("py"@.len() != "tsx"@.len());
        assert("py"@ != "tsx"@);
        assert(language_for_extension("py"@) == Some("python"@));
    } else if k == 8 {
        assert(documented_extensions()[k] == ("pyw"@, "python"@));
        reveal_strlit("pyw");
        reveal_strlit("rs");
        assert("pyw"@.len() != "rs"@.len());
        assert("pyw"@ != "rs"@);
        reveal_strlit("js");
        assert("pyw"@.len() != "js"@.len());
        assert("pyw"@ != "js"@);
        reveal_strlit("jsx");
        assert("pyw"@[0] != "jsx"@[0]);
        assert("pyw"@ != "jsx"@);
        reveal_strlit("mjs");
        assert("pyw"@[0] != "mjs"@[0]);
        assert("pyw"@ != "mjs"@);
        reveal_strlit("cjs");
        assert("pyw"@[0] != "cjs"@[0]);
        assert("pyw"@ != "cjs"@);
        reveal_strlit("ts");
        assert("pyw"@.len() != "ts"@.len());
        assert("pyw"@ != "ts"@);
        reveal_strlit("tsx");
        assert("pyw"@[0] != "tsx"@[0]);
        assert("pyw"@ != "tsx"@);
        reveal_strlit("py");
        assert("pyw"@.len() != "py"@.len());
        assert("pyw"@ != "py"@);
        assert(language_for_extension("pyw"@) == Some("python"@));
    } else if k == 9 {
        assert(documented_extensions()[k] == ("pyi"@, "python"@));
        reveal_strlit("pyi");
        reveal_strlit("rs");
        assert("pyi"@.len() != "rs"@.len());
        assert("pyi"@ != "rs"@);
        reveal_strlit("js");
        assert("pyi"@.len() != "js"@.len());
        assert("pyi"@ != "js"@);
        reveal_strlit("jsx");
        assert("pyi"@[0] != "jsx"@[0]);
        assert("pyi"@ != "jsx"@);
        reveal_strlit("mjs");
        assert("pyi"@[0] != "mjs"@[0]);
        assert("pyi"@ != "mjs"@);
        reveal_strlit("cjs");
        assert("pyi"@[0] != "cjs"@[0]);
        assert("pyi"@ != "cjs"@);
        reveal_strlit("ts");
        assert("pyi"@.len() != "ts"@.len());
        assert("pyi"@ != "ts"@);
        reveal_strlit("tsx");
        assert("pyi"@[0] != "tsx"@[0]);
        assert("pyi"@ != "tsx"@);
        reveal_strlit("py");
        assert("pyi"@.len() != "py"@.len());
        assert("pyi"@ != "py"@);
        reveal_strlit("pyw");
        assert("pyi"@[2] != "pyw"@[2]);
        assert("pyi"@ != "pyw"@);
        assert(language_for_extension("pyi"@) == Some("python"@));
    } else if k == 10 {
        assert(documented_extensions()[k] == ("go"@, "go"@));
        reveal_strlit("go");
        reveal_strlit("rs");
        assert("go"@[0] != "rs"@[0]);
        assert("go"@ != "rs"@);
        reveal_strlit("js");
        assert("go"@[0] != "js"@[0]);
        assert("go"@ != "js"@);
        reveal_strlit("jsx");
        assert("go"@.len() != "jsx"@.len());
        assert("go"@ != "jsx"@);
        reveal_strlit("mjs");
        assert("go"@.len() != "mjs"@.len());
        assert("go"@ != "mjs"@);
        reveal_strlit("cjs");
        assert("go"@.len() != "cjs"@.len());
        assert("go"@ != "cjs"@);
        reveal_strlit("ts");
        assert("go"@[0] != "ts"@[0]);
        assert("go"@ != "ts"@);
        reveal_strlit("tsx");
        assert("go"@.len() != "tsx"@.len());
        assert("go"@ != "tsx"@);
        reveal_strlit("py");
        assert("go"@[0] != "py"@[0]);
        assert("go"@ != "py"@);
        reveal_strlit("pyw");
        assert("go"@.len() != "pyw"@.len());
        assert("go"@ != "pyw"@);
        reveal_strlit("pyi");
        assert("go"@.len() != "pyi"@.len());
        assert("go"@ != "pyi"@);
        assert(language_for_extension("go"@) == Some("go"@));
    } else if k == 11 {
        assert(documented_extensions()[k] == ("java"@, "java"@));
        reveal_strlit("java");
        reveal_strlit("rs");
        assert("java"@.len() != "rs"@.len());
        assert("java"@ != "rs"@);
        reveal_strlit("js");
        assert("java"@.len() != "js"@.len());
        assert("java"@ != "js"@);
        reveal_strlit("jsx");
        assert("java"@.len() != "jsx"@.len());
        assert("java"@ != "jsx"@);
        reveal_strlit("mjs");
        assert("java"@.len() != "mjs"@.len());
        assert("java"@ != "mjs"@);
        reveal_strlit("cjs");
        assert("java"@.len() != "cjs"@.len());
        assert("java"@ != "cjs"@);
        reveal_strlit("ts");
        assert("java"@.len() != "ts"@.len());
        assert("java"@ != "ts"@);
        reveal_strlit("tsx");
        assert("java"@.len() != "tsx"@.len());
        assert("java"@ != "tsx"@);
        reveal_strlit("py");
        assert("java"@.len() != "py"@.len());
        assert("java"@ != "py"@);
        reveal_strlit("pyw");
        assert("java"@.len() != "pyw"@.len());
        assert("java"@ != "pyw"@);
        reveal_strlit("pyi");
        assert("java"@.len() != "pyi"@.len());
        assert("java"@ != "pyi"@);
        reveal_strlit("go");
        assert("java"@.len() != "go"@.len());
        assert("java"@ != "go"@);
        assert(language_for_extension("java"@) == Some("java"@));
    } else if k == 12 {
        assert(documented_extensions()[k] == ("c"@, "c"@));
        reveal_strlit("c");
        reveal_strlit("rs");
        assert("c"@.len() != "rs"@.len());
        assert("c"@ != "rs"@);
        reveal_strlit("js");
        assert("c"@.len() != "js"@.len());
        assert("c"@ != "js"@);
        reveal_strlit("jsx");
        assert("c"@.len() != "jsx"@.len());
        assert("c"@ != "jsx"@);
        reveal_strlit("mjs");
        assert("c"@.len() != "mjs"@.len());
        assert("c"@ != "mjs"@);
        reveal_strlit("cjs");
        assert("c"@.len() != "cjs"@.len());
        assert("c"@ != "cjs"@);
        reveal_strlit("ts");
        assert("c"@.len() != "ts"@.len());
        assert("c"@ != "ts"@);
        reveal_strlit("tsx");
        assert("c"@.len() != "tsx"@.len());
        assert("c"@ != "tsx"@);
        reveal_strlit("py");
        assert("c"@.len() != "py"@.len());
        assert("c"@ != "py"@);
        reveal_strlit("pyw");
        assert("c"@.len() != "pyw"@.len());
        assert("c"@ != "pyw"@);
        reveal_strlit("pyi");
        assert("c"@.len() != "pyi"@.len());
        assert("c"@ != "pyi"@);
        reveal_strlit("go");
        assert("c"@.len() != "go"@.len());
        assert("c"@ != "go"@);
        reveal_strlit("java");
        assert("c"@.len() != "java"@.len());
        assert("c"@ != "java"@);
        assert(language_for_extension("c"@) == Some("c"@));
    } else if k == 13 {
        assert(documented_extensions()[k] == ("h"@, "c"@));
        reveal_strlit("h");
        reveal_strlit("rs");
        assert("h"@.len() != "rs"@.len());
        assert("h"@ != "rs"@);
        reveal_strlit("js");
        assert("h"@.len() != "js"@.len());
        assert("h"@ != "js"@);
        reveal_strlit("jsx");
        assert("h"@.len() != "jsx"@.len());
        assert("h"@ != "jsx"@);
        reveal_strlit("mjs");
        assert("h"@.len() != "mjs"@.len());
        assert("h"@ != "mjs"@);
        reveal_strlit("cjs");
        assert("h"@.len() != "cjs"@.len());
        assert("h"@ != "cjs"@);
        reveal_strlit("ts");
        assert("h"@.len() != "ts"@.len());
        assert("h"@ != "ts"@);
        reveal_strlit("tsx");
        assert("h"@.len() != "tsx"@.len());
        assert("h"@ != "tsx"@);
        reveal_strlit("py");
        assert("h"@.len() != "py"@.len());
        assert("h"@ != "py"@);
        reveal_strlit("pyw");
        assert("h"@.len() != "pyw"@.len());
        assert("h"@ != "pyw"@);
        reveal_strlit("pyi");
        assert("h"@.len() != "pyi"@.len());
        assert("h"@ != "pyi"@);
        reveal_strlit("go");
        assert("h"@.len() != "go"@.len());
        assert("h"@ != "go"@);
        reveal_strlit("java");
        assert("h"@.len() != "java"@.len());
        assert("h"@ != "java"@);
        reveal_strlit("c");
        assert("h"@[0] != "c"@[0]);
        assert("h"@ != "c"@);
        assert(language_for_extension("h"@) == Some("c"@));
    } else if k == 14 {
        assert(documented_extensions()[k] == ("cpp"@, "cpp"@));
        reveal_strlit("cpp");
        reveal_strlit("rs");
        assert("cpp"@.len() != "rs"@.len());
        assert("cpp"@ != "rs"@);
        reveal_strlit("js");
        assert("cpp"@.len() != "js"@.len());
        assert("cpp"@ != "js"@);
        reveal_strlit("jsx");
        assert("cpp"@[0] != "jsx"@[0]);
        assert("cpp"@ != "jsx"@);
        reveal_strlit("mjs");
        assert("cpp"@[0] != "mjs"@[0]);
        assert("cpp"@ != "mjs"@);
        reveal_strlit("cjs");
        assert("cpp"@[1] != "cjs"@[1]);
        assert("cpp"@ != "cjs"@);
        reveal_strlit("ts");
        assert("cpp"@.len() != "ts"@.len());
        assert("cpp"@ != "ts"@);
        reveal_strlit("tsx");
        assert("cpp"@[0] != "tsx"@[0]);
        assert("cpp"@ != "tsx"@);
        reveal_strlit("py");
        assert("cpp"@.len() != "py"@.len());
        assert("cpp"@ != "py"@);
        reveal_strlit("pyw");
        assert("cpp"@[0] != "pyw"@[0]);
        assert("cpp"@ != "pyw"@);
        reveal_strlit("pyi");
        assert("cpp"@[0] != "pyi"@[0]);
        assert("cpp"@ != "pyi"@);
        reveal_strlit("go");
        assert("cpp"@.len() != "go"@.len());
        assert("cpp"@ != "go"@);
        reveal_strlit("java");
        assert("cpp"@.len() != "java"@.len());
        assert("cpp"@ != "java"@);
        reveal_strlit("c");
        assert("cpp"@.len() != "c"@.len());
        assert("cpp"@ != "c"@);
        reveal_strlit("h");
        assert("cpp"@.len() != "h"@.len());
        assert("cpp"@ != "h"@);
        assert(language_for_extension("cpp"@) == Some("cpp"@));
    } else if k == 15 {
        assert(documented_extensions()[k] == ("cc"@, "cpp"@));
        reveal_strlit("cc");
        reveal_strlit("rs");
        assert("cc"@[0] != "rs"@[0]);
        assert("cc"@ != "rs"@);
        reveal_strlit("js");
        assert("cc"@[0] != "js"@[0]);
        assert("cc"@ != "js"@);
        reveal_strlit("jsx");
        assert("cc"@.len() != "jsx"@.len());
        assert("cc"@ != "jsx"@);
        reveal_strlit("mjs");
        assert("cc"@.len() != "mjs"@.len());
        assert("cc"@ != "mjs"@);
        reveal_strlit("cjs");
        assert("cc"@.len() != "cjs"@.len());
        assert("cc"@ != "cjs"@);
        reveal_strlit("ts");
        assert("cc"@[0] != "ts"@[0]);
        assert("cc"@ != "ts"@);
        reveal_strlit("tsx");
        assert("cc"@.len() != "tsx"@.len());
        assert("cc"@ != "tsx"@);
        reveal_strlit("py");
        assert("cc"@[0] != "py"@[0]);
        assert("cc"@ != "py"@);
        reveal_strlit("pyw");
        assert("cc"@.len() != "pyw"@.len());
        assert("cc"@ != "pyw"@);
        reveal_strlit("pyi");
        assert("cc"@.len() != "pyi"@.len());
        assert("cc"@ != "pyi"@);
        reveal_strlit("go");
        assert("cc"@[0] != "go"@[0]);
        assert("cc"@ != "go"@);
        reveal_strlit("java");
        assert("cc"@.len() != "java"@.len());
        assert("cc"@ != "java"@);
        reveal_strlit("c");
        assert("cc"@.len() != "c"@.len());
        assert("cc"@ != "c"@);
        reveal_strlit("h");
        assert("cc"@.len() != "h"@.len());
        assert("cc"@ != "h"@);
        reveal_strlit("cpp");
        assert("cc"@.len() != "cpp"@.len());
        assert("cc"@ != "cpp"@);
        assert(language_for_extension("cc"@) == Some("cpp"@));
    } else if k == 16 {
        assert(documented_extensions()[k] == ("cxx"@, "cpp"@));
        reveal_strlit("cxx");
        reveal_strlit("rs");
        assert("cxx"@.len() != "rs"@.len());
        assert("cxx"@ != "rs"@);
        reveal_strlit("js");
        assert("cxx"@.len() != "js"@.len());
        assert("cxx"@ != "js"@);
        reveal_strlit("jsx");
        assert("cxx"@[0] != "jsx"@[0]);
        assert("cxx"@ != "jsx"@);
        reveal_strlit("mjs");
        assert("cxx"@[0] != "mjs"@[0]);
        assert("cxx"@ != "mjs"@);
        reveal_strlit("cjs");
        assert("cxx"@[1] != "cjs"@[1]);
        assert("cxx"@ != "cjs"@);
        reveal_strlit("ts");
        assert("cxx"@.len() != "ts"@.len());
        assert("cxx"@ != "ts"@);
        reveal_strlit("tsx");
        assert("cxx"@[0] != "tsx"@[0]);
        assert("cxx"@ != "tsx"@);
        reveal_strlit("py");
        assert("cxx"@.len() != "py"@.len());
        assert("cxx"@ != "py"@);
        reveal_strlit("pyw");
        assert("cxx"@[0] != "pyw"@[0]);
        assert("cxx"@ != "pyw"@);
        reveal_strlit("pyi");
        assert("cxx"@[0] != "pyi"@[0]);
        assert("cxx"@ != "pyi"@);
        reveal_strlit("go");
        assert("cxx"@.len() != "go"@.len());
        assert("cxx"@ != "go"@);
        reveal_strlit("java");
        assert("cxx"@.len() != "java"@.len());
        assert("cxx"@ != "java"@);
        reveal_strlit("c");
        assert("cxx"@.len() != "c"@.len());
        assert("cxx"@ != "c"@);
        reveal_strlit("h");
        assert("cxx"@.len() != "h"@.len());
        assert("cxx"@ != "h"@);
        reveal_strlit("cpp");
        assert("cxx"@[1] != "cpp"@[1]);
        assert("cxx"@ != "cpp"@);
        reveal_strlit("cc");
        assert("cxx"@.len() != "cc"@.len());
        assert("cxx"@ != "cc"@);
        assert(language_for_extension("cxx"@) == Some("cpp"@));
    } else if k == 17 {
        assert(documented_extensions()[k] == ("hpp"@, "cpp"@));
        reveal_strlit("hpp");
        reveal_strlit("rs");
        assert("hpp"@.len() != "rs"@.len());
        assert("hpp"@ != "rs"@);
        reveal_strlit("js");
        assert("hpp"@.len() != "js"@.len());
        assert("hpp"@ != "js"@);
        reveal_strlit("jsx");
        assert("hpp"@[0] != "jsx"@[0]);
        assert("hpp"@ != "jsx"@);
        reveal_strlit("mjs");
        assert("hpp"@[0] != "mjs"@[0]);
        assert("hpp"@ != "mjs"@);
        reveal_strlit("cjs");
        assert("hpp"@[0] != "cjs"@[0]);
        assert("hpp"@ != "cjs"@);
        reveal_strlit("ts");
        assert("hpp"@.len() != "ts"@.len());
        assert("hpp"@ != "ts"@);
        reveal_strlit("tsx");
        assert("hpp"@[0] != "tsx"@[0]);
        assert("hpp"@ != "tsx"@);
        reveal_strlit("py");
        assert("hpp"@.len() != "py"@.len());
        assert("hpp"@ != "py"@);
        reveal_strlit("pyw");
        assert("hpp"@[0] != "pyw"@[0]);
        assert("hpp"@ != "pyw"@);
        reveal_strlit("pyi");
        assert("hpp"@[0] != "pyi"@[0]);
        assert("hpp"@ != "pyi"@);
        reveal_strlit("go");
        assert("hpp"@.len() != "go"@.len());
        assert("hpp"@ != "go"@);
        reveal_strlit("java");
        assert("hpp"@.len() != "java"@.len());
        assert("hpp"@ != "java"@);
        reveal_strlit("c");
        assert("hpp"@.len() != "c"@.len());
        assert("hpp"@ != "c"@);
        reveal_strlit("h");
        assert("hpp"@.len() != "h"@.len());
        assert("hpp"@ != "h"@);
        reveal_strlit("cpp");
        assert("hpp"@[0] != "cpp"@[0]);
        assert("hpp"@ != "cpp"@);
        reveal_strlit("cc");
        assert("hpp"@.len() != "cc"@.len());
        assert("hpp"@ != "cc"@);
        reveal_strlit("cxx");
        assert("hpp"@[0] != "cxx"@[0]);
        assert("hpp"@ != "cxx"@);
        assert(language_for_extension("hpp"@) == Some("cpp"@));
    } else if k == 18 {
        assert(documented_extensions()[k] == ("hxx"@, "cpp"@));
        reveal_strlit("hxx");
        reveal_strlit("rs");
        assert("hxx"@.len() != "rs"@.len());
        assert("hxx"@ != "rs"@);
        reveal_strlit("js");
        assert("hxx"@.len() != "js"@.len());
        assert("hxx"@ != "js"@);
        reveal_strlit("jsx");
        assert("hxx"@[0] != "jsx"@[0]);
        assert("hxx"@ != "jsx"@);
        reveal_strlit("mjs");
        assert("hxx"@[0] != "mjs"@[0]);
        assert("hxx"@ != "mjs"@);
        reveal_strlit("cjs");
        assert("hxx"@[0] != "cjs"@[0]);
        assert("hxx"@ != "cjs"@);
        reveal_strlit("ts");
        assert("hxx"@.len() != "ts"@.len());
        assert("hxx"@ != "ts"@);
        reveal_strlit("tsx");
        assert("hxx"@[0] != "tsx"@[0]);
        assert("hxx"@ != "tsx"@);
        reveal_strlit("py");
        assert("hxx"@.len() != "py"@.len());
        assert("hxx"@ != "py"@);
        reveal_strlit("pyw");
        assert("hxx"@[0] != "pyw"@[0]);
        assert("hxx"@ != "pyw"@);
        reveal_strlit("pyi");
        assert("hxx"@[0] != "pyi"@[0]);
        assert("hxx"@ != "pyi"@);
        reveal_strlit("go");
        assert("hxx"@.len() != "go"@.len());
        assert("hxx"@ != "go"@);
        reveal_strlit("java");
        assert("hxx"@.len() != "java"@.len());
        assert("hxx"@ != "java"@);
        reveal_strlit("c");
        assert("hxx"@.len() != "c"@.len());
        assert("hxx"@ != "c"@);
        reveal_strlit("h");
        assert("hxx"@.len() != "h"@.len());
        assert("hxx"@ != "h"@);
        reveal_strlit("cpp");
        assert("hxx"@[0] != "cpp"@[0]);
        assert("hxx"@ != "cpp"@);
        reveal_strlit("cc");
        assert("hxx"@.len() != "cc"@.len());
        assert("hxx"@ != "cc"@);
        reveal_strlit("cxx");
        assert("hxx"@[0] != "cxx"@[0]);
        assert("hxx"@ != "cxx"@);
        reveal_strlit("hpp");
        assert("hxx"@[1] != "hpp"@[1]);
        assert("hxx"@ != "hpp"@);
        assert(language_for_extension("hxx"@) == Some("cpp"@));
    }
}

// ─── Function-level coupling ─────────────────────────────────────────────────

/// Placing an entry into a ranking keeps every entry there and adds it.
proof fn lemma_insert_ranked_keeps(s: Seq<FunctionCouplingView>, x: FunctionCouplingView)
    ensures
        insert_ranked(s, x).contains(x),
        forall|y: FunctionCouplingView| s.contains(y) ==> #[trigger] insert_ranked(s, x).contains(y),
    decreases s.len(),
{
    let r = insert_ranked(s, x);
    if s.len() == 0 {
        assert(r[0] == x);
    } else if crate::analyzer::coupling::ranks_before(x, s[0]) {
        assert(r[0] == x);
        assert forall|y: FunctionCouplingView| s.contains(y) implies #[trigger] r.contains(y) by {
            let k = choose|k: int| 0 <= k < s.len() && s[k] == y;
            assert(r[k + 1] == y);
        }
    } else {
        let t = s.drop_first();
        lemma_insert_ranked_keeps(t, x);
        let rt = insert_ranked(t, x);
        assert(r == seq![s[0]] + rt);
        let j = choose|j: int| 0 <= j < rt.len() && rt[j] == x;
        assert(r[j + 1] == x);
        assert forall|y: FunctionCouplingView| s.contains(y) implies #[trigger] r.contains(y) by {
            let k = choose|k: int| 0 <= k < s.len() && s[k] == y;
            if k == 0 {
                assert(r[0] == y);
            } else {
                assert(t[k - 1] == y);
                assert(rt.contains(y));
                let m = choose|m: int| 0 <= m < rt.len() && rt[m] == y;
                assert(r[m + 1] == y);
            }
        }
    }
}

/// Ranking keeps every entry.
proof fn lemma_rank_keeps(s: Seq<FunctionCouplingView>)
    ensures
        forall|y: FunctionCouplingView| s.contains(y) ==> #[trigger] rank_entries(s).contains(y),
    decreases s.len(),
{
    if s.len() > 0 {
        let init = s.drop_last();
        lemma_rank_keeps(init);
        lemma_insert_ranked_keeps(rank_entries(init), s.last());
        assert forall|y: FunctionCouplingView| s.contains(y) implies #[trigger] rank_entries(s).contains(y) by {
            let k = choose|k: int| 0 <= k < s.len() && s[k] == y;
            if k < init.len() {
                assert(init[k] == y);
                assert(init.contains(y));
            } else {
                assert(s.last() == y);
            }
        }
    }
}

/// The entry for the file as a whole of each coupled file is among the
/// entries.
proof fn lemma_file_entry_listed(
    coupled: Seq<(Seq<char>, Ratio, usize)>,
    target: FunctionDefView,
    direct_calls: Seq<Seq<char>>,
    edges: Seq<CallEdgeView>,
    files: Seq<(Seq<char>, Option<Seq<FunctionDefView>>)>,
    i: int,
)
    requires
        0 <= i < coupled.len(),
    ensures
        coupling_entries(coupled, target, direct_calls, edges, files).contains(
            entries_for_file(coupled[i], target, direct_calls, edges, files).last(),
        ),
    decreases coupled.len(),
{
    let init = coupled.drop_last();
    let front = coupling_entries(init, target, direct_calls, edges, files);
    let back = entries_for_file(coupled.last(), target, direct_calls, edges, files);
    let all = coupling_entries(coupled, target, direct_calls, edges, files);
    assert(all == front + back);
    if i < init.len() {
        lemma_file_entry_listed(init, target, direct_calls, edges, files, i);
        assert(init[i] == coupled[i]);
        let k = choose|k: int|
            0 <= k < front.len() && front[k] == entries_for_file(init[i], target, direct_calls, edges, files).last();
        assert(all[k] == front[k]);
    } else {
        assert(coupled.last() == coupled[i]);
        assert(all[front.len() + back.len() - 1] == back.last());
    }
}

/// For every coupled file, the function-level analysis (see
/// `analyze_function_coupling`) holds an entry for the file as a whole,
/// with the file's confidence, that counts the file as statically linked
/// exactly when a function of the file calls a function named like the
/// target, or the target calls into the file, or the file defines a
/// function that the target calls; a statically linked file coupled at 7/10
/// or more is of high risk.
pub proof fn law_coupled_file_static_link(
    coupled: Seq<(Seq<char>, Ratio, usize)>,
    target: FunctionDefView,
    direct_calls: Seq<Seq<char>>,
    edges: Seq<CallEdgeView>,
    files: Seq<(Seq<char>, Option<Seq<FunctionDefView>>)>,
    i: int,
)
    requires
        0 <= i < coupled.len(),
    ensures
        ({
            let r = ranked_coupling(coupled, target, direct_calls, edges, files);
            let path = coupled[i].0;
            exists|k: int|
                0 <= k < r.len() && {
                    let x = #[trigger] r[k];
                    &&& x.function_name == "(file-level)"@
                    &&& x.file_path == path
                    &&& x.confidence == coupled[i].1
                    &&& x.has_static_call == ((exists|j: int|
                        0 <= j < edges.len() && (#[trigger] edges[j]).callee_name == target.name
                            && edges[j].caller_file == path) || (exists|j: int|
                        0 <= j < edges.len() && (#[trigger] edges[j]).caller_name == target.name
                            && edges[j].caller_file == target.file_path && edges[j].callee_file
                            == Some(path)) || (exists|j: int, m: int|
                        #![trigger (files[j].1->0)[m]]
                        0 <= j < files.len() && files[j].0 == path && files[j].1 is Some && 0 <= m
                            < files[j].1->0.len() && direct_calls.contains((files[j].1->0)[m].name)))
                    &&& x.has_static_call && ratio_ge(x.confidence, Ratio { num: 7, den: 10 })
                        ==> x.risk_level == RiskLevel::High
                }
        }),
{
    let path = coupled[i].0;
    let x = entries_for_file(coupled[i], target, direct_calls, edges, files).last();
    lemma_file_entry_listed(coupled, target, direct_calls, edges, files, i);
    let s = coupling_entries(coupled, target, direct_calls, edges, files);
    lemma_rank_keeps(s);
    let r = ranked_coupling(coupled, target, direct_calls, edges, files);
    assert(r.contains(x));
    let k = choose|k: int| 0 <= k < r.len() && r[k] == x;
    let reverse = exists|j: int|
        0 <= j < edges.len() && (#[trigger] edges[j]).callee_name == target.name && edges[j].caller_file
            == path;
    let forward = exists|j: int|
        0 <= j < edges.len() && (#[trigger] edges[j]).caller_name == target.name && edges[j].caller_file
            == target.file_path && edges[j].callee_file == Some(path);
    let defined = exists|j: int, m: int|
        #![trigger (files[j].1->0)[m]]
        0 <= j < files.len() && files[j].0 == path && files[j].1 is Some && 0 <= m < files[j].1->0.len()
            && direct_calls.contains((files[j].1->0)[m].name);
    assert(crate::analyzer::coupling::edge_links(path, target, edges) == (reverse || forward)) by {
        if crate::analyzer::coupling::edge_links(path, target, edges) {
            let j = choose|j: int|
                0 <= j < edges.len() && ({
                    let e = #[trigger] edges[j];
                    (e.caller_name == target.name && e.caller_file == target.file_path && e.callee_file
                        == Some(path)) || (e.callee_name == target.name && e.caller_file == path)
                });
            if edges[j].callee_name == target.name && edges[j].caller_file == path {
                assert(reverse);
            } else {
                assert(forward);
            }
        }
        if reverse {
            let j = choose|j: int|
                0 <= j < edges.len() && (#[trigger] edges[j]).callee_name == target.name
                    && edges[j].caller_file == path;
            assert(crate::analyzer::coupling::edge_links(path, target, edges));
        }
        if forward {
            let j = choose|j: int|
                0 <= j < edges.len() && (#[trigger] edges[j]).caller_name == target.name
                    && edges[j].caller_file == target.file_path && edges[j].callee_file == Some(path);
            assert(crate::analyzer::coupling::edge_links(path, target, edges));
        }
    }
    assert(crate::analyzer::coupling::defines_direct_callee(path, direct_calls, files) == defined) by {
        if crate::analyzer::coupling::defines_direct_callee(path, direct_calls, files) {
            let j = choose|j: int|
                0 <= j < files.len() && crate::analyzer::coupling::entry_defines_callee(
                    #[trigger] files[j],
                    path,
                    direct_calls,
                );
            let fs = files[j].1->0;
            let m = choose|m: int| 0 <= m < fs.len() && direct_calls.contains(#[trigger] fs[m].name);
            assert(files[j].0 == path && files[j].1 is Some && 0 <= m < files[j].1->0.len()
                && direct_calls.contains((files[j].1->0)[m].name));
        }
        if defined {
            let (j, m) = choose|j: int, m: int|
                #![trigger (files[j].1->0)[m]]
                0 <= j < files.len() && files[j].0 == path && files[j].1 is Some && 0 <= m
                    < files[j].1->0.len() && direct_calls.contains((files[j].1->0)[m].name);
            let fs = files[j].1->0;
            assert(direct_calls.contains(fs[m].name));
            assert(crate::analyzer::coupling::entry_defines_callee(files[j], path, direct_calls));
        }
    }
    assert(r[k] == x);
}

} // verus!
