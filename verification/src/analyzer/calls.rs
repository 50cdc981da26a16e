//! Call extraction: the calls a function body makes, with standard-library
//! and boilerplate calls filtered out and names reduced to their short form.

use vstd::prelude::*;

use crate::analyzer::languages::{
    call_kinds, call_name, extract_call_name, has_grammar, is_call_node, language_of_path,
    str_views,
};
use crate::analyzer::parse::{parse_source, parsed, AnalyzeError};
use crate::analyzer::syntax::{
    field_child, get_child, get_field_child, kind_is, node_text, nth_child, text_of, ParsedTree,
    SourceText, SyntaxNode, SyntaxTree,
};
use crate::analyzer::{detect_language, function_node_search, string_views, FunctionDef, FunctionDefView};
use crate::text::{
    after_last_char, after_last_char_exec, before_char, before_char_exec, chars_in_list, chars_of,
    contains_char, contains_chars, has_infix, has_prefix, lemma_rfind_char_props,
    lemma_rfind_pair_props, rfind_char, rfind_char_exec, rfind_pair, rfind_pair_exec, slice_chars,
    starts_with_str, string_of,
};

verus! {

// ─── Noise lists ─────────────────────────────────────────────────────────────

/// Known standard-library qualified call names.
pub open spec fn known_noise() -> Seq<Seq<char>> {
    seq![
        "Vec::new"@, "HashSet::new"@, "HashMap::new"@, "Box::new"@,
        "Option::Some"@, "Option::None"@, "Result::Ok"@, "Result::Err"@,
        "String::from"@, "Into::into"@, "From::from"@,
        "Clone::clone"@, "ToOwned::to_owned"@, "ToString::to_string"@,
        "Default::default"@,
        "Iterator::collect"@, "Iterator::map"@, "Iterator::filter"@, "Iterator::next"@,
        "Option::unwrap"@, "Option::unwrap_or"@, "Option::unwrap_or_else"@,
        "Option::is_some"@, "Option::is_none"@,
        "Result::unwrap"@, "Result::unwrap_err"@, "Result::is_ok"@, "Result::is_err"@,
    ]
}

fn known_noise_list() -> (r: Vec<&'static str>)
    ensures
        str_views(r@) == known_noise(),
{
    let r = vec![
        "Vec::new", "HashSet::new", "HashMap::new", "Box::new",
        "Option::Some", "Option::None", "Result::Ok", "Result::Err",
        "String::from", "Into::into", "From::from",
        "Clone::clone", "ToOwned::to_owned", "ToString::to_string",
        "Default::default",
        "Iterator::collect", "Iterator::map", "Iterator::filter", "Iterator::next",
        "Option::unwrap", "Option::unwrap_or", "Option::unwrap_or_else",
        "Option::is_some", "Option::is_none",
        "Result::unwrap", "Result::unwrap_err", "Result::is_ok", "Result::is_err",
    ];
    assert(str_views(r@) =~= known_noise());
    r
}

/// Prefixes of standard-library qualified calls.
pub open spec fn noise_prefixes() -> Seq<Seq<char>> {
    seq![
        "Iterator::"@, "Option::"@, "Result::"@,
        "Vec::"@, "HashSet::"@, "HashMap::"@, "Box::"@,
        "String::"@, "Clone::"@, "Default::"@,
        "Into::"@, "From::"@, "ToOwned::"@, "ToString::"@,
        "AsRef::"@, "AsMut::"@, "Borrow::"@, "BorrowMut::"@,
        "Deref::"@, "DerefMut::"@,
    ]
}

fn noise_prefix_list() -> (r: Vec<&'static str>)
    ensures
        str_views(r@) == noise_prefixes(),
{
    let r = vec![
        "Iterator::", "Option::", "Result::",
        "Vec::", "HashSet::", "HashMap::", "Box::",
        "String::", "Clone::", "Default::",
        "Into::", "From::", "ToOwned::", "ToString::",
        "AsRef::", "AsMut::", "Borrow::", "BorrowMut::",
        "Deref::", "DerefMut::",
    ];
    assert(str_views(r@) =~= noise_prefixes());
    r
}

/// Unqualified function and macro names that are always noise.
pub open spec fn simple_noise() -> Seq<Seq<char>> {
    seq![
        "panic"@, "println"@, "eprintln"@, "format"@, "vec"@,
        "assert"@, "assert_eq"@, "assert_ne"@,
        "todo"@, "unimplemented"@, "unreachable"@,
        "cfg"@, "env"@, "include_str"@, "include_bytes"@,
        "Some"@, "None"@, "Ok"@, "Err"@,
        "new"@, "default"@,
    ]
}

fn simple_noise_list() -> (r: Vec<&'static str>)
    ensures
        str_views(r@) == simple_noise(),
{
    let r = vec![
        "panic", "println", "eprintln", "format", "vec",
        "assert", "assert_eq", "assert_ne",
        "todo", "unimplemented", "unreachable",
        "cfg", "env", "include_str", "include_bytes",
        "Some", "None", "Ok", "Err",
        "new", "default",
    ];
    assert(str_views(r@) =~= simple_noise());
    r
}

/// Short method names of standard-library traits and collections.
pub open spec fn short_noise_methods() -> Seq<Seq<char>> {
    seq![
        "collect"@, "map"@, "filter"@, "filter_map"@, "flat_map"@, "next"@,
        "for_each"@, "fold"@, "find"@, "any"@, "all"@, "count"@,
        "into_iter"@, "iter"@, "iter_mut"@, "enumerate"@, "zip"@, "chain"@,
        "skip"@, "take"@, "rev"@, "peekable"@, "inspect"@,
        "unwrap"@, "unwrap_or"@, "unwrap_or_else"@, "unwrap_or_default"@,
        "unwrap_err"@, "unwrap_none"@,
        "is_some"@, "is_none"@, "is_ok"@, "is_err"@, "expect"@,
        "ok"@, "err"@, "or"@, "and"@, "or_else"@, "and_then"@,
        "map_ok"@, "map_err"@, "map_or"@, "map_or_else"@,
        "clone"@, "to_owned"@, "to_string"@, "default"@, "into"@,
        "as_ref"@, "as_mut"@, "borrow"@, "borrow_mut"@,
        "deref"@, "deref_mut"@,
        "push"@, "pop"@, "insert"@, "remove"@, "contains"@, "len"@, "is_empty"@,
        "get"@, "get_mut"@, "entry"@, "or_insert"@, "extend"@, "with_capacity"@,
        "from_iter"@, "from_elem"@, "last"@, "first"@, "split_off"@,
        "new"@, "from"@, "from_iter"@,
    ]
}

fn short_noise_method_list() -> (r: Vec<&'static str>)
    ensures
        str_views(r@) == short_noise_methods(),
{
    let r = vec![
        "collect", "map", "filter", "filter_map", "flat_map", "next",
        "for_each", "fold", "find", "any", "all", "count",
        "into_iter", "iter", "iter_mut", "enumerate", "zip", "chain",
        "skip", "take", "rev", "peekable", "inspect",
        "unwrap", "unwrap_or", "unwrap_or_else", "unwrap_or_default",
        "unwrap_err", "unwrap_none",
        "is_some", "is_none", "is_ok", "is_err", "expect",
        "ok", "err", "or", "and", "or_else", "and_then",
        "map_ok", "map_err", "map_or", "map_or_else",
        "clone", "to_owned", "to_string", "default", "into",
        "as_ref", "as_mut", "borrow", "borrow_mut",
        "deref", "deref_mut",
        "push", "pop", "insert", "remove", "contains", "len", "is_empty",
        "get", "get_mut", "entry", "or_insert", "extend", "with_capacity",
        "from_iter", "from_elem", "last", "first", "split_off",
        "new", "from", "from_iter",
    ];
    assert(str_views(r@) =~= short_noise_methods());
    r
}

/// Macro names that are always noise.
pub open spec fn macro_noise() -> Seq<Seq<char>> {
    seq![
        "println"@, "eprintln"@, "format"@, "vec"@,
        "assert"@, "assert_eq"@, "assert_ne"@,
        "panic"@,
        "todo"@, "unimplemented"@, "unreachable"@,
        "cfg"@, "env"@, "include_str"@, "include_bytes"@,
    ]
}

fn macro_noise_list() -> (r: Vec<&'static str>)
    ensures
        str_views(r@) == macro_noise(),
{
    let r = vec![
        "println", "eprintln", "format", "vec",
        "assert", "assert_eq", "assert_ne",
        "panic",
        "todo", "unimplemented", "unreachable",
        "cfg", "env", "include_str", "include_bytes",
    ];
    assert(str_views(r@) =~= macro_noise());
    r
}

/// Whether `list` holds `v`.
fn listed(v: &Vec<char>, list: &Vec<&'static str>) -> (r: bool)
    ensures
        r == str_views(list@).contains(v@),
{
    let r = chars_in_list(v, list);
    proof {
        if r {
            let i = choose|i: int| 0 <= i < list@.len() && #[trigger] list@[i]@ == v@;
            assert(str_views(list@)[i] == v@);
        }
        if str_views(list@).contains(v@) {
            let i = choose|i: int| 0 <= i < str_views(list@).len() && str_views(list@)[i] == v@;
            assert(list@[i]@ == v@);
        }
    }
    r
}

// ─── Noise filtering ─────────────────────────────────────────────────────────

/// `s` without one trailing `!`.
pub open spec fn strip_bang(s: Seq<char>) -> Seq<char> {
    if s.len() > 0 && s.last() == '!' {
        s.drop_last()
    } else {
        s
    }
}

/// The callee text of a Rust call is noise: a known qualified name, a
/// standard prefix, a standard method after `.`, or an unqualified standard
/// name (generic arguments aside).
pub open spec fn is_noise_callee_text(t: Seq<char>) -> bool {
    ||| known_noise().contains(t)
    ||| exists|i: int| 0 <= i < noise_prefixes().len() && has_prefix(t, #[trigger] noise_prefixes()[i])
    ||| (t.contains('.') && short_noise_methods().contains(after_last_char(t, '.')))
    ||| (!has_infix(t, "::"@) && simple_noise().contains(before_char(t, '<')))
}

/// Whether a Rust call node is a standard-library or boilerplate call.
pub open spec fn is_rust_noise(node: SyntaxNode, text: Seq<char>) -> bool {
    if node.kind@ == "call_expression"@ {
        match nth_child(node, 0) {
            Some(f) => is_noise_callee_text(node_text(text, f)),
            None => false,
        }
    } else if node.kind@ == "method_call_expression"@ {
        match field_child(node, "method"@) {
            Some(m) => short_noise_methods().contains(node_text(text, m)),
            None => false,
        }
    } else if node.kind@ == "macro_invocation"@ {
        match nth_child(node, 0) {
            Some(m) => macro_noise().contains(strip_bang(node_text(text, m))),
            None => false,
        }
    } else {
        false
    }
}

fn is_noise_callee_text_exec(t: &Vec<char>) -> (r: bool)
    ensures
        r == is_noise_callee_text(t@),
{
    if listed(t, &known_noise_list()) {
        return true;
    }
    let prefixes = noise_prefix_list();
    let mut i: usize = 0;
    while i < prefixes.len()
        invariant
            0 <= i <= prefixes@.len(),
            str_views(prefixes@) == noise_prefixes(),
            forall|j: int| 0 <= j < i ==> !has_prefix(t@, #[trigger] noise_prefixes()[j]),
        decreases prefixes.len() - i,
    {
        assert(str_views(prefixes@)[i as int] == prefixes@[i as int]@);
        if starts_with_str(t, prefixes[i]) {
            return true;
        }
        i += 1;
    }
    if contains_char(t, '.') {
        let short = after_last_char_exec(t, '.');
        if listed(&short, &short_noise_method_list()) {
            return true;
        }
    }
    if !contains_chars(t, &chars_of("::")) {
        let check = before_char_exec(t, '<');
        if listed(&check, &simple_noise_list()) {
            return true;
        }
    }
    false
}

/// Check whether a Rust call node represents a noise (stdlib/boilerplate)
/// call, by its whole node rather than only the extracted short name.
fn is_rust_noise_call(node: &SyntaxNode, text: &SourceText) -> (r: bool)
    requires
        text.wf(),
    ensures
        r == is_rust_noise(*node, text@),
{
    if kind_is(node, "call_expression") {
        match get_child(node, 0) {
            Some(func) => {
                let t = text_of(text, func);
                is_noise_callee_text_exec(&t)
            },
            None => false,
        }
    } else if kind_is(node, "method_call_expression") {
        match get_field_child(node, "method") {
            Some(m) => {
                let method = text_of(text, m);
                listed(&method, &short_noise_method_list())
            },
            None => false,
        }
    } else if kind_is(node, "macro_invocation") {
        match get_child(node, 0) {
            Some(m) => {
                let macro_name = text_of(text, m);
                let name = if macro_name.len() > 0 && macro_name[macro_name.len() - 1] == '!' {
                    slice_chars(&macro_name, 0, macro_name.len() - 1)
                } else {
                    macro_name
                };
                assert(name@ =~= strip_bang(node_text(text@, *m)));
                listed(&name, &macro_noise_list())
            },
            None => false,
        }
    } else {
        false
    }
}

// ─── Short names ─────────────────────────────────────────────────────────────

/// The short form of a call name: the last segment after `::` (generic
/// arguments dropped), else after `.`, else the whole name.
pub open spec fn short_call_name(name: Seq<char>) -> Seq<char> {
    let k = rfind_pair(name, ':', ':');
    if k >= 0 {
        before_char(name.skip(k + 2), '<')
    } else {
        let d = rfind_char(name, '.');
        if d >= 0 {
            name.skip(d + 1)
        } else {
            name
        }
    }
}

/// Normalize a call name to its short form (strip qualifiers).
/// "bound::without_defaults" → "without_defaults";
/// "params.split_for_impl" → "split_for_impl".
pub fn normalize_call_name(name: &Vec<char>) -> (r: Vec<char>)
    ensures
        r@ == short_call_name(name@),
{
    proof {
        lemma_rfind_pair_props(name@, ':', ':');
        lemma_rfind_char_props(name@, '.');
    }
    match rfind_pair_exec(name, ':', ':') {
        Some(pos) => {
            assert(pos + 2 <= name.len());
            let short = slice_chars(name, pos + 2, name.len());
            assert(short@ =~= name@.skip(pos + 2));
            before_char_exec(&short, '<')
        },
        None => match rfind_char_exec(name, '.') {
            Some(pos) => {
                assert(pos + 1 <= name.len());
                let r = slice_chars(name, pos + 1, name.len());
                assert(r@ =~= name@.skip(pos + 1));
                r
            },
            None => slice_chars(name, 0, name.len()),
        },
    }
}

// ─── Collecting calls ────────────────────────────────────────────────────────

/// The call `node` contributes: its short callee name, unless it is not a
/// call, is noise (Rust only), names no callee, or the short name is empty.
pub open spec fn own_call(node: SyntaxNode, text: Seq<char>, language: Seq<char>) -> Seq<Seq<char>> {
    let noise = language == "rust"@ && is_rust_noise(node, text);
    if call_kinds(language).contains(node.kind@) && !noise {
        match call_name(node, text, language) {
            Some(n) => {
                let m = short_call_name(n);
                if m.len() > 0 {
                    seq![m]
                } else {
                    seq![]
                }
            },
            None => seq![],
        }
    } else {
        seq![]
    }
}

/// The calls in the subtrees of the children of `node` from index `i` on, in
/// pre-order.
pub open spec fn calls_below(node: SyntaxNode, i: nat, text: Seq<char>, language: Seq<char>) -> Seq<
    Seq<char>,
>
    decreases node, node.children@.len() - i,
{
    if i >= node.children@.len() {
        seq![]
    } else {
        let c = node.children@[i as int];
        own_call(c, text, language) + calls_below(c, 0, text, language) + calls_below(
            node,
            i + 1,
            text,
            language,
        )
    }
}

/// All calls in the subtree of `node`, in pre-order.
pub open spec fn calls_in(node: SyntaxNode, text: Seq<char>, language: Seq<char>) -> Seq<Seq<char>> {
    own_call(node, text, language) + calls_below(node, 0, text, language)
}

fn collect_call_names_recursive(
    node: &SyntaxNode,
    text: &SourceText,
    language: &str,
    calls: &mut Vec<String>,
)
    requires
        text.wf(),
    ensures
        string_views(final(calls)@) == string_views(old(calls)@) + calls_in(*node, text@, language@),
    decreases node,
{
    let ghost start = string_views(calls@);
    if is_call_node(node.kind.as_str(), language) {
        let is_noise = if crate::text::str_eq(language, "rust") {
            is_rust_noise_call(node, text)
        } else {
            false
        };
        if !is_noise {
            if let Some(name) = extract_call_name(node, text, language) {
                let normalized = normalize_call_name(&chars_of(name.as_str()));
                if normalized.len() > 0 {
                    calls.push(string_of(&normalized));
                }
            }
        }
    }
    assert(string_views(calls@) =~= start + own_call(*node, text@, language@));
    let ghost mid = string_views(calls@);
    let mut i: usize = 0;
    while i < node.children.len()
        invariant
            text.wf(),
            0 <= i <= node.children@.len(),
            string_views(calls@) + calls_below(*node, i as nat, text@, language@) == mid
                + calls_below(*node, 0, text@, language@),
        decreases node.children.len() - i,
    {
        let ghost before = string_views(calls@);
        collect_call_names_recursive(&node.children[i], text, language, calls);
        assert(string_views(calls@) + calls_below(*node, (i + 1) as nat, text@, language@) =~= before
            + calls_below(*node, i as nat, text@, language@));
        i += 1;
    }
    assert(calls_below(*node, i as nat, text@, language@) =~= seq![]);
    assert(string_views(calls@) =~= start + calls_in(*node, text@, language@));
}

/// Collect all call names within a function node, filtering out noise and
/// normalizing to short names.
pub fn collect_call_names(func_node: &SyntaxNode, text: &SourceText, language: &str) -> (r: Vec<
    String,
>)
    requires
        text.wf(),
    ensures
        string_views(r@) == calls_in(*func_node, text@, language@),
{
    let mut calls: Vec<String> = Vec::new();
    collect_call_names_recursive(func_node, text, language, &mut calls);
    assert(string_views(calls@) =~= calls_in(*func_node, text@, language@));
    calls
}

/// The calls of the function node that spans a definition's first line, in a
/// parsed file; none when no function node spans it.
pub open spec fn calls_of_function_in(tree: ParsedTree, language: Seq<char>, func: FunctionDefView) -> Seq<
    Seq<char>,
> {
    match function_node_search(tree.root, None, 0, func.start_line - 1, language) {
        Some((f, _)) => calls_in(f, tree.text, language),
        None => seq![],
    }
}

/// The calls made by a function, read from a parsed file.
pub fn calls_of_function_in_tree(tree: &SyntaxTree, language: &str, func: &FunctionDef) -> (r: Vec<
    String,
>)
    requires
        tree.wf(),
        func.start_line >= 1,
    ensures
        string_views(r@) == calls_of_function_in(tree@, language@, func@),
{
    match crate::analyzer::find_function_node(&tree.root, None, func.start_line, language) {
        Some((func_node, _)) => collect_call_names(func_node, &tree.text, language),
        None => Vec::new(),
    }
}

/// Extract the function names called from within a function's body: empty for
/// a file of unknown language or without a grammar; otherwise what
/// `calls_of_function_in` gives for the file's parse.
pub fn extract_calls_from_function(source: &str, func: &FunctionDef) -> (r: Result<
    Vec<String>,
    AnalyzeError,
>)
    requires
        func.start_line >= 1 || !(language_of_path(func.file_path@) matches Some(l) && has_grammar(l)),
    ensures
        match language_of_path(func.file_path@) {
            Some(l) => if has_grammar(l) {
                r matches Ok(v) && string_views(v@) == calls_of_function_in(parsed(l, source@), l, func@)
            } else {
                (r matches Ok(v) && v@.len() == 0)
            },
            None => (r matches Ok(v) && v@.len() == 0),
        },
{
    let language_name = match detect_language(func.file_path.as_str()) {
        Some(lang) => lang,
        None => return Ok(Vec::new()),
    };
    let tree = match parse_source(source, language_name.as_str()) {
        Err(e) => return Err(e),
        Ok(None) => return Ok(Vec::new()),
        Ok(Some(t)) => t,
    };
    let calls = calls_of_function_in_tree(&tree, language_name.as_str(), func);
    Ok(calls)
}

} // verus!
