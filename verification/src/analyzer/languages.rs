//! Language detection and the grammar facts the analyzer relies on.
//!
//! Supports: Rust, JavaScript, TypeScript, Python, Go, Java, C/C++.
//! Each language defines which syntax node kinds are function or method
//! definitions, which are call expressions, and how the name of a function
//! and the target of a call are read off the tree.

use vstd::prelude::*;

use crate::analyzer::syntax::{
    field_child, find_first_of_kind, first_of_kind, get_child, get_field_child, kind_is,
    node_text, nth_child, opt_node, text_of, text_string, SourceText, SyntaxNode,
};
use crate::text::{
    after_last_char, after_last_char_exec, before_char, before_char_exec,
    chars_in_list, chars_of, contains_char, push_str, rfind_pair, rfind_pair_exec, slice_chars, str_eq,
    string_from_str, string_of, to_lowercase, lowered,
    lemma_rfind_pair_props,
};

verus! {

/// The views of a list of string slices.
pub open spec fn str_views(v: Seq<&str>) -> Seq<Seq<char>> {
    v.map_values(|s: &str| s@)
}

// ─── Language Detection ──────────────────────────────────────────────────────

/// The language named by a lower-cased file extension.
pub open spec fn language_for_extension(ext: Seq<char>) -> Option<Seq<char>> {
    if ext == "rs"@ {
        Some("rust"@)
    } else if ext == "js"@ || ext == "jsx"@ || ext == "mjs"@ || ext == "cjs"@ {
        Some("javascript"@)
    } else if ext == "ts"@ {
        Some("typescript"@)
    } else if ext == "tsx"@ {
        Some("tsx"@)
    } else if ext == "py"@ || ext == "pyw"@ || ext == "pyi"@ {
        Some("python"@)
    } else if ext == "go"@ {
        Some("go"@)
    } else if ext == "java"@ {
        Some("java"@)
    } else if ext == "c"@ || ext == "h"@ {
        Some("c"@)
    } else if ext == "cpp"@ || ext == "cc"@ || ext == "cxx"@ || ext == "hpp"@ || ext == "hxx"@ {
        Some("cpp"@)
    } else {
        None
    }
}

/// The language of a file: that of its extension, the lower-cased text
/// after its last `.`; none for a path without a `.`.
pub open spec fn language_of_path(path: Seq<char>) -> Option<Seq<char>> {
    if path.contains('.') {
        language_for_extension(lowered(after_last_char(path, '.')))
    } else {
        None
    }
}

/// The language named by a lower-cased file extension.
pub fn language_of_extension(ext: &str) -> (r: Option<String>)
    ensures
        r is Some <==> language_for_extension(ext@) is Some,
        r matches Some(s) ==> language_for_extension(ext@) == Some(s@),
{
    if str_eq(ext, "rs") {
        Some(string_from_str("rust"))
    } else if str_eq(ext, "js") || str_eq(ext, "jsx") || str_eq(ext, "mjs") || str_eq(ext, "cjs") {
        Some(string_from_str("javascript"))
    } else if str_eq(ext, "ts") {
        Some(string_from_str("typescript"))
    } else if str_eq(ext, "tsx") {
        Some(string_from_str("tsx"))
    } else if str_eq(ext, "py") || str_eq(ext, "pyw") || str_eq(ext, "pyi") {
        Some(string_from_str("python"))
    } else if str_eq(ext, "go") {
        Some(string_from_str("go"))
    } else if str_eq(ext, "java") {
        Some(string_from_str("java"))
    } else if str_eq(ext, "c") || str_eq(ext, "h") {
        Some(string_from_str("c"))
    } else if str_eq(ext, "cpp") || str_eq(ext, "cc") || str_eq(ext, "cxx") || str_eq(ext, "hpp")
        || str_eq(ext, "hxx") {
        Some(string_from_str("cpp"))
    } else {
        None
    }
}

/// Detect the programming language from a file path's extension.
pub fn detect_language_from_path(file_path: &str) -> (r: Option<String>)
    ensures
        r is Some <==> language_of_path(file_path@) is Some,
        r matches Some(s) ==> language_of_path(file_path@) == Some(s@),
{
    let path = chars_of(file_path);
    if !contains_char(&path, '.') {
        return None;
    }
    let ext_chars = after_last_char_exec(&path, '.');
    let ext_string = string_of(&ext_chars);
    let lowered = to_lowercase(ext_string.as_str());
    language_of_extension(lowered.as_str())
}

/// The languages for which a grammar is linked in.
pub open spec fn has_grammar(language: Seq<char>) -> bool {
    ||| language == "rust"@
    ||| language == "javascript"@
    ||| language == "typescript"@
    ||| language == "tsx"@
    ||| language == "python"@
    ||| language == "go"@
    ||| language == "java"@
    ||| language == "c"@
    ||| language == "cpp"@
}

/// Whether `language` is one of the JavaScript dialects.
pub open spec fn is_js_family(language: Seq<char>) -> bool {
    language == "javascript"@ || language == "typescript"@ || language == "tsx"@
}

/// Whether `language` is C or C++.
pub open spec fn is_c_family(language: Seq<char>) -> bool {
    language == "c"@ || language == "cpp"@
}

fn is_js_family_exec(language: &str) -> (r: bool)
    ensures
        r == is_js_family(language@),
{
    str_eq(language, "javascript") || str_eq(language, "typescript") || str_eq(language, "tsx")
}

fn is_c_family_exec(language: &str) -> (r: bool)
    ensures
        r == is_c_family(language@),
{
    str_eq(language, "c") || str_eq(language, "cpp")
}

// ─── Function Node Classification ────────────────────────────────────────────

/// The node kinds that are function or method definitions in `language`.
pub open spec fn function_kinds(language: Seq<char>) -> Seq<Seq<char>> {
    if language == "rust"@ {
        seq!["function_item"@, "function_signature_item"@, "impl_item"@]
    } else if is_js_family(language) {
        seq![
            "function_declaration"@,
            "function_expression"@,
            "method_definition"@,
            "arrow_function"@,
            "generator_function_declaration"@,
            "generator_function"@,
            "class_method"@,
        ]
    } else if language == "python"@ {
        seq!["function_definition"@, "decorated_definition"@]
    } else if language == "go"@ {
        seq!["function_declaration"@, "method_declaration"@]
    } else if language == "java"@ {
        seq![
            "method_declaration"@,
            "constructor_declaration"@,
            "class_declaration"@,
            "interface_declaration"@,
        ]
    } else if is_c_family(language) {
        seq!["function_definition"@, "declaration"@]
    } else {
        seq![]
    }
}

/// The node kinds that are function or method definitions in `language`.
fn function_node_kinds(language: &str) -> (r: Vec<&'static str>)
    ensures
        str_views(r@) == function_kinds(language@),
{
    let r = if str_eq(language, "rust") {
        vec!["function_item", "function_signature_item", "impl_item"]
    } else if is_js_family_exec(language) {
        vec![
            "function_declaration",
            "function_expression",
            "method_definition",
            "arrow_function",
            "generator_function_declaration",
            "generator_function",
            "class_method",
        ]
    } else if str_eq(language, "python") {
        vec!["function_definition", "decorated_definition"]
    } else if str_eq(language, "go") {
        vec!["function_declaration", "method_declaration"]
    } else if str_eq(language, "java") {
        vec![
            "method_declaration",
            "constructor_declaration",
            "class_declaration",
            "interface_declaration",
        ]
    } else if is_c_family_exec(language) {
        vec!["function_definition", "declaration"]
    } else {
        vec![]
    };
    assert(str_views(r@) =~= function_kinds(language@));
    r
}

/// Whether `list` holds `v`, by the views of its entries.
fn in_str_list(v: &Vec<char>, list: &Vec<&'static str>) -> (r: bool)
    ensures
        r == str_views(list@).contains(v@),
{
    let r = chars_in_list(v, list);
    proof {
        if r {
            let i = choose|i: int| 0 <= i < list@.len() && #[trigger] list@[i]@ == v@;
            assert(str_views(list@)[i] == v@);
        }
        if str_views(list@).contains(v@) {
            let i = choose|i: int| 0 <= i < str_views(list@).len() && str_views(list@)[i] == v@;
            assert(list@[i]@ == v@);
        }
    }
    r
}

/// Check if an AST node kind represents a function or method definition.
pub fn is_function_node(kind: &str, language: &str) -> (r: bool)
    ensures
        r == function_kinds(language@).contains(kind@),
{
    let kinds = function_node_kinds(language);
    in_str_list(&chars_of(kind), &kinds)
}

// ─── Call Expression Classification ──────────────────────────────────────────

/// The node kinds that are calls in `language`.
pub open spec fn call_kinds(language: Seq<char>) -> Seq<Seq<char>> {
    if language == "rust"@ {
        seq!["call_expression"@, "macro_invocation"@, "method_call_expression"@]
    } else if is_js_family(language) {
        seq!["call_expression"@, "new_expression"@]
    } else if language == "python"@ {
        seq!["call"@]
    } else if language == "go"@ {
        seq!["call_expression"@]
    } else if language == "java"@ {
        seq!["method_invocation"@, "object_creation_expression"@, "constructor_invocation"@]
    } else if is_c_family(language) {
        seq!["call_expression"@]
    } else {
        seq![]
    }
}

/// The node kinds that are calls in `language`.
fn call_node_kinds(language: &str) -> (r: Vec<&'static str>)
    ensures
        str_views(r@) == call_kinds(language@),
{
    let r = if str_eq(language, "rust") {
        vec!["call_expression", "macro_invocation", "method_call_expression"]
    } else if is_js_family_exec(language) {
        vec!["call_expression", "new_expression"]
    } else if str_eq(language, "python") {
        vec!["call"]
    } else if str_eq(language, "go") {
        vec!["call_expression"]
    } else if str_eq(language, "java") {
        vec!["method_invocation", "object_creation_expression", "constructor_invocation"]
    } else if is_c_family_exec(language) {
        vec!["call_expression"]
    } else {
        vec![]
    };
    assert(str_views(r@) =~= call_kinds(language@));
    r
}

/// Check if an AST node kind represents a function or method call.
pub fn is_call_node(kind: &str, language: &str) -> (r: bool)
    ensures
        r == call_kinds(language@).contains(kind@),
{
    let kinds = call_node_kinds(language);
    in_str_list(&chars_of(kind), &kinds)
}

// ─── Function Name Extraction ────────────────────────────────────────────────

/// In C, the first identifier directly under the first declarator child that
/// has one.
pub open spec fn declarator_identifier(children: Seq<SyntaxNode>) -> Option<SyntaxNode>
    decreases children.len(),
{
    if children.len() == 0 {
        None
    } else {
        let c = children[0];
        if (c.kind@ == "function_declarator"@ || c.kind@ == "declarator"@) && first_of_kind(
            c.children@,
            "identifier"@,
        ) is Some {
            first_of_kind(c.children@, "identifier"@)
        } else {
            declarator_identifier(children.drop_first())
        }
    }
}

/// The name node that an anonymous JavaScript function takes from the
/// construct it is assigned to.
pub open spec fn js_context_name_node(parent: Option<SyntaxNode>) -> Option<SyntaxNode> {
    match parent {
        None => None,
        Some(p) => if p.kind@ == "variable_declarator"@ {
            field_child(p, "name"@)
        } else if p.kind@ == "assignment_expression"@ {
            match field_child(p, "left"@) {
                None => None,
                Some(left) => if left.kind@ == "member_expression"@ {
                    field_child(left, "property"@)
                } else {
                    Some(left)
                },
            }
        } else if p.kind@ == "property"@ || p.kind@ == "pair"@ {
            field_child(p, "key"@)
        } else {
            None
        },
    }
}

/// The child node holding a function's name, given the function node, its
/// parent and the language.
pub open spec fn name_node(node: SyntaxNode, parent: Option<SyntaxNode>, language: Seq<char>) -> Option<
    SyntaxNode,
> {
    if language == "rust"@ || language == "go"@ || language == "java"@ {
        field_child(node, "name"@)
    } else if is_js_family(language) {
        match field_child(node, "name"@) {
            Some(n) => Some(n),
            None => js_context_name_node(parent),
        }
    } else if language == "python"@ {
        if node.kind@ == "decorated_definition"@ {
            match first_of_kind(node.children@, "function_definition"@) {
                Some(f) => field_child(f, "name"@),
                None => None,
            }
        } else {
            field_child(node, "name"@)
        }
    } else if is_c_family(language) {
        declarator_identifier(node.children@)
    } else {
        None
    }
}

/// In C, the first identifier directly under the first declarator child that
/// has one.
fn find_declarator_identifier<'a>(children: &'a Vec<SyntaxNode>) -> (r: Option<&'a SyntaxNode>)
    ensures
        r matches Some(c) ==> declarator_identifier(children@) == Some(*c),
        r is None ==> declarator_identifier(children@) is None,
{
    let mut i: usize = 0;
    assert(children@.skip(0) =~= children@);
    while i < children.len()
        invariant
            0 <= i <= children@.len(),
            declarator_identifier(children@) == declarator_identifier(children@.skip(i as int)),
        decreases children.len() - i,
    {
        assert(children@.skip(i as int).drop_first() =~= children@.skip(i + 1));
        assert(children@.skip(i as int)[0] == children@[i as int]);
        let c = &children[i];
        if kind_is(c, "function_declarator") || kind_is(c, "declarator") {
            if let Some(id) = find_first_of_kind(&c.children, "identifier") {
                return Some(id);
            }
        }
        i += 1;
    }
    None
}

/// Given a function node (and its parent), find the child node that holds the
/// function name.
pub fn get_function_name_node<'a>(
    node: &'a SyntaxNode,
    parent: Option<&'a SyntaxNode>,
    language: &str,
) -> (r: Option<&'a SyntaxNode>)
    ensures
        r matches Some(c) ==> name_node(*node, opt_node(parent), language@) == Some(
            *c,
        ),
        r is None ==> name_node(*node, opt_node(parent), language@) is None,
{
    if str_eq(language, "rust") || str_eq(language, "go") || str_eq(language, "java") {
        get_field_child(node, "name")
    } else if is_js_family_exec(language) {
        if let Some(name_node) = get_field_child(node, "name") {
            return Some(name_node);
        }
        match parent {
            None => None,
            Some(p) => {
                if kind_is(p, "variable_declarator") {
                    get_field_child(p, "name")
                } else if kind_is(p, "assignment_expression") {
                    match get_field_child(p, "left") {
                        None => None,
                        Some(left) => {
                            if kind_is(left, "member_expression") {
                                get_field_child(left, "property")
                            } else {
                                Some(left)
                            }
                        },
                    }
                } else if kind_is(p, "property") || kind_is(p, "pair") {
                    get_field_child(p, "key")
                } else {
                    None
                }
            },
        }
    } else if str_eq(language, "python") {
        if kind_is(node, "decorated_definition") {
            match find_first_of_kind(&node.children, "function_definition") {
                Some(f) => get_field_child(f, "name"),
                None => None,
            }
        } else {
            get_field_child(node, "name")
        }
    } else if is_c_family_exec(language) {
        find_declarator_identifier(&node.children)
    } else {
        None
    }
}

// ─── Call Name Extraction ────────────────────────────────────────────────────

/// The text after the last `::` (all of it when it has none):
/// what `rsplit("::").next()` yields.
pub open spec fn after_last_path_sep(s: Seq<char>) -> Seq<char> {
    let k = rfind_pair(s, ':', ':');
    if k < 0 {
        s
    } else {
        s.skip(k + 2)
    }
}

/// The text after the last `::`.
pub fn after_last_path_sep_exec(v: &Vec<char>) -> (r: Vec<char>)
    ensures
        r@ == after_last_path_sep(v@),
{
    proof {
        lemma_rfind_pair_props(v@, ':', ':');
    }
    match rfind_pair_exec(v, ':', ':') {
        None => slice_chars(v, 0, v.len()),
        Some(k) => {
            assert(k + 2 <= v.len());
            slice_chars(v, k + 2, v.len())
        },
    }
}

/// The text of an optional node.
pub open spec fn opt_text(text: Seq<char>, n: Option<SyntaxNode>) -> Option<Seq<char>> {
    match n {
        Some(c) => Some(node_text(text, c)),
        None => None,
    }
}

/// The callee a Rust call node names: for a qualified or generic callee
/// (`bound::without_defaults`, `Vec::<T>::new`, `parse::<u32>`) the last
/// identifier after `::`, generic arguments stripped; for a field callee the
/// field; for a method call `object.method`; for a macro its name.
pub open spec fn rust_call_name(node: SyntaxNode, text: Seq<char>) -> Option<Seq<char>> {
    if node.kind@ == "call_expression"@ {
        match nth_child(node, 0) {
            None => None,
            Some(func) => {
                let t = node_text(text, func);
                if func.kind@ == "scoped_identifier"@ {
                    Some(before_char(after_last_path_sep(t), '<'))
                } else if func.kind@ == "generic_function"@ {
                    let named = match field_child(func, "function"@) {
                        Some(f) => node_text(text, f),
                        None => t,
                    };
                    Some(before_char(after_last_path_sep(named), '<'))
                } else if func.kind@ == "field_expression"@ {
                    match field_child(func, "field"@) {
                        Some(f) => Some(node_text(text, f)),
                        None => Some(after_last_char(t, '.')),
                    }
                } else {
                    Some(t)
                }
            },
        }
    } else if node.kind@ == "method_call_expression"@ {
        let method = opt_text(text, field_child(node, "method"@));
        let object = opt_text(text, field_child(node, "object"@));
        match (object, method) {
            (Some(obj), Some(meth)) => Some(obj + "."@ + meth),
            (None, Some(meth)) => Some(meth),
            _ => opt_text(text, nth_child(node, 1)),
        }
    } else if node.kind@ == "macro_invocation"@ {
        opt_text(text, nth_child(node, 0))
    } else {
        None
    }
}

/// The callee a JavaScript or TypeScript call node names.
pub open spec fn js_call_name(node: SyntaxNode, text: Seq<char>) -> Option<Seq<char>> {
    if node.kind@ == "call_expression"@ {
        match nth_child(node, 0) {
            None => None,
            Some(func) => if func.kind@ == "member_expression"@ {
                match field_child(func, "property"@) {
                    Some(p) => Some(node_text(text, p)),
                    None => Some(node_text(text, func)),
                }
            } else {
                Some(node_text(text, func))
            },
        }
    } else if node.kind@ == "new_expression"@ {
        match field_child(node, "constructor"@) {
            Some(c) => Some("new "@ + node_text(text, c)),
            None => None,
        }
    } else {
        None
    }
}

/// The callee named by the first child, or by the given field of it when the
/// first child has kind `qualified`: the rule for Python and Go calls.
pub open spec fn qualified_call_name(
    node: SyntaxNode,
    text: Seq<char>,
    qualified: Seq<char>,
    field: Seq<char>,
) -> Option<Seq<char>> {
    match nth_child(node, 0) {
        None => None,
        Some(func) => if func.kind@ == qualified {
            match field_child(func, field) {
                Some(a) => Some(node_text(text, a)),
                None => Some(node_text(text, func)),
            }
        } else {
            Some(node_text(text, func))
        },
    }
}

/// The callee a Java call node names.
pub open spec fn java_call_name(node: SyntaxNode, text: Seq<char>) -> Option<Seq<char>> {
    if node.kind@ == "method_invocation"@ {
        opt_text(text, field_child(node, "name"@))
    } else if node.kind@ == "object_creation_expression"@ {
        match field_child(node, "type"@) {
            Some(c) => Some("new "@ + node_text(text, c)),
            None => None,
        }
    } else {
        None
    }
}

/// The callee a C call node names.
pub open spec fn c_call_name(node: SyntaxNode, text: Seq<char>) -> Option<Seq<char>> {
    match field_child(node, "function"@) {
        Some(f) => Some(node_text(text, f)),
        None => opt_text(text, nth_child(node, 0)),
    }
}

/// The callee a call node names, by language.
pub open spec fn call_name(node: SyntaxNode, text: Seq<char>, language: Seq<char>) -> Option<
    Seq<char>,
> {
    if language == "rust"@ {
        rust_call_name(node, text)
    } else if is_js_family(language) {
        js_call_name(node, text)
    } else if language == "python"@ {
        qualified_call_name(node, text, "attribute"@, "attribute"@)
    } else if language == "go"@ {
        qualified_call_name(node, text, "selector_expression"@, "field"@)
    } else if language == "java"@ {
        java_call_name(node, text)
    } else if is_c_family(language) {
        c_call_name(node, text)
    } else {
        None
    }
}

/// A `String` with the text of a well-formed node.
fn node_string(text: &SourceText, n: &SyntaxNode) -> (r: String)
    requires
        text.wf(),
    ensures
        r@ == node_text(text@, *n),
{
    text_string(text, n)
}

/// `prefix` followed by the text of a well-formed node.
fn prefixed_node_string(prefix: &str, text: &SourceText, n: &SyntaxNode) -> (r: String)
    requires
        text.wf(),
    ensures
        r@ == prefix@ + node_text(text@, *n),
{
    let mut s = string_from_str(prefix);
    let t = node_string(text, n);
    push_str(&mut s, t.as_str());
    s
}

fn extract_rust_call_name(node: &SyntaxNode, text: &SourceText) -> (r: Option<String>)
    requires
        text.wf(),
    ensures
        r matches Some(s) ==> rust_call_name(*node, text@) == Some(s@),
        r is None ==> rust_call_name(*node, text@) is None,
{
    if kind_is(node, "call_expression") {
        let func = match get_child(node, 0) {
            Some(f) => f,
            None => return None,
        };
        if kind_is(func, "scoped_identifier") {
            let t = text_of(text, func);
            let short = after_last_path_sep_exec(&t);
            let short = before_char_exec(&short, '<');
            Some(string_of(&short))
        } else if kind_is(func, "generic_function") {
            let named = match get_field_child(func, "function") {
                Some(f) => text_of(text, f),
                None => text_of(text, func),
            };
            let short = after_last_path_sep_exec(&named);
            let short = before_char_exec(&short, '<');
            Some(string_of(&short))
        } else if kind_is(func, "field_expression") {
            match get_field_child(func, "field") {
                Some(f) => Some(node_string(text, f)),
                None => {
                    let t = text_of(text, func);
                    Some(string_of(&after_last_char_exec(&t, '.')))
                },
            }
        } else {
            Some(node_string(text, func))
        }
    } else if kind_is(node, "method_call_expression") {
        let method = match get_field_child(node, "method") {
            Some(m) => Some(node_string(text, m)),
            None => None,
        };
        let object = match get_field_child(node, "object") {
            Some(o) => Some(node_string(text, o)),
            None => None,
        };
        match (object, method) {
            (Some(obj), Some(meth)) => {
                let mut s = obj;
                push_str(&mut s, ".");
                push_str(&mut s, meth.as_str());
                Some(s)
            },
            (None, Some(meth)) => Some(meth),
            _ => match get_child(node, 1) {
                Some(f) => {
                    Some(node_string(text, f))
                },
                None => None,
            },
        }
    } else if kind_is(node, "macro_invocation") {
        match get_child(node, 0) {
            Some(f) => {
                Some(node_string(text, f))
            },
            None => None,
        }
    } else {
        None
    }
}

fn extract_js_call_name(node: &SyntaxNode, text: &SourceText) -> (r: Option<String>)
    requires
        text.wf(),
    ensures
        r matches Some(s) ==> js_call_name(*node, text@) == Some(s@),
        r is None ==> js_call_name(*node, text@) is None,
{
    if kind_is(node, "call_expression") {
        match get_child(node, 0) {
            None => None,
            Some(func) => {
                if kind_is(func, "member_expression") {
                    match get_field_child(func, "property") {
                        Some(p) => Some(node_string(text, p)),
                        None => Some(node_string(text, func)),
                    }
                } else {
                    Some(node_string(text, func))
                }
            },
        }
    } else if kind_is(node, "new_expression") {
        match get_field_child(node, "constructor") {
            Some(c) => Some(prefixed_node_string("new ", text, c)),
            None => None,
        }
    } else {
        None
    }
}

fn extract_qualified_call_name(
    node: &SyntaxNode,
    text: &SourceText,
    qualified: &str,
    field: &str,
) -> (r: Option<String>)
    requires
        text.wf(),
    ensures
        r matches Some(s) ==> qualified_call_name(*node, text@, qualified@, field@) == Some(s@),
        r is None ==> qualified_call_name(*node, text@, qualified@, field@) is None,
{
    match get_child(node, 0) {
        None => None,
        Some(func) => {
            if kind_is(func, qualified) {
                match get_field_child(func, field) {
                    Some(a) => Some(node_string(text, a)),
                    None => Some(node_string(text, func)),
                }
            } else {
                Some(node_string(text, func))
            }
        },
    }
}

fn extract_python_call_name(node: &SyntaxNode, text: &SourceText) -> (r: Option<String>)
    requires
        text.wf(),
    ensures
        r matches Some(s) ==> qualified_call_name(*node, text@, "attribute"@, "attribute"@) == Some(s@),
        r is None ==> qualified_call_name(*node, text@, "attribute"@, "attribute"@) is None,
{
    extract_qualified_call_name(node, text, "attribute", "attribute")
}

fn extract_go_call_name(node: &SyntaxNode, text: &SourceText) -> (r: Option<String>)
    requires
        text.wf(),
    ensures
        r matches Some(s) ==> qualified_call_name(*node, text@, "selector_expression"@, "field"@)
            == Some(s@),
        r is None ==> qualified_call_name(*node, text@, "selector_expression"@, "field"@) is None,
{
    extract_qualified_call_name(node, text, "selector_expression", "field")
}

fn extract_java_call_name(node: &SyntaxNode, text: &SourceText) -> (r: Option<String>)
    requires
        text.wf(),
    ensures
        r matches Some(s) ==> java_call_name(*node, text@) == Some(s@),
        r is None ==> java_call_name(*node, text@) is None,
{
    if kind_is(node, "method_invocation") {
        match get_field_child(node, "name") {
            Some(n) => Some(node_string(text, n)),
            None => None,
        }
    } else if kind_is(node, "object_creation_expression") {
        match get_field_child(node, "type") {
            Some(c) => Some(prefixed_node_string("new ", text, c)),
            None => None,
        }
    } else {
        None
    }
}

fn extract_c_call_name(node: &SyntaxNode, text: &SourceText) -> (r: Option<String>)
    requires
        text.wf(),
    ensures
        r matches Some(s) ==> c_call_name(*node, text@) == Some(s@),
        r is None ==> c_call_name(*node, text@) is None,
{
    match get_field_child(node, "function") {
        Some(f) => Some(node_string(text, f)),
        None => match get_child(node, 0) {
            Some(first) => {
                Some(node_string(text, first))
            },
            None => None,
        },
    }
}

/// Extract the name of the function being called from a call expression node.
pub fn extract_call_name(node: &SyntaxNode, text: &SourceText, language: &str) -> (r: Option<
    String,
>)
    requires
        text.wf(),
    ensures
        r matches Some(s) ==> call_name(*node, text@, language@) == Some(s@),
        r is None ==> call_name(*node, text@, language@) is None,
{
    if str_eq(language, "rust") {
        extract_rust_call_name(node, text)
    } else if is_js_family_exec(language) {
        extract_js_call_name(node, text)
    } else if str_eq(language, "python") {
        extract_python_call_name(node, text)
    } else if str_eq(language, "go") {
        extract_go_call_name(node, text)
    } else if str_eq(language, "java") {
        extract_java_call_name(node, text)
    } else if is_c_family_exec(language) {
        extract_c_call_name(node, text)
    } else {
        None
    }
}

} // verus!
