//! Analyzer: syntax-tree based function-level analysis.
//!
//! This module:
//! 1. Parses source files into syntax trees for multiple languages
//! 2. Locates the function/method at a given line number
//! 3. Extracts all function definitions from a file
//! 4. Builds static call chains between functions
//! 5. Maps diff hunks to function-level changes
//! 6. Classifies risk by combining static dependency with temporal coupling

pub mod syntax;
pub mod languages;
pub mod parse;
pub mod calls;
pub mod call_graph;
pub mod coupling;
pub mod laws;

use vstd::prelude::*;

use crate::analyzer::languages::{
    function_kinds, get_function_name_node, has_grammar, language_of_path, name_node, opt_text,
};
use crate::analyzer::parse::{parse_source, parsed, AnalyzeError};
use crate::analyzer::syntax::{
    field_child, get_field_child, kind_is, line_of, line_of_row, node_text, opt_node, text_of,
    text_string, ParsedTree, SourceText, SyntaxNode, SyntaxTree,
};
use crate::ratio::{ratio_ge, Ratio};
use crate::text::{
    before_char, before_char_exec, has_prefix, starts_with_str, string_from_str, string_of, trim,
    trim_exec,
};

verus! {

// ─── Data Types ──────────────────────────────────────────────────────────────

/// A function or method identified in source code.
#[derive(Debug, Clone)]
pub struct FunctionDef {
    /// Function/method name
    pub name: String,
    /// File path containing the function
    pub file_path: String,
    /// Start line (1-based)
    pub start_line: u32,
    /// End line (1-based, inclusive)
    pub end_line: u32,
    /// Language of the source file
    pub language: String,
}

/// The value a `FunctionDef` holds.
pub struct FunctionDefView {
    pub name: Seq<char>,
    pub file_path: Seq<char>,
    pub start_line: u32,
    pub end_line: u32,
    pub language: Seq<char>,
}

impl View for FunctionDef {
    type V = FunctionDefView;

    open spec fn view(&self) -> FunctionDefView {
        FunctionDefView {
            name: self.name@,
            file_path: self.file_path@,
            start_line: self.start_line,
            end_line: self.end_line,
            language: self.language@,
        }
    }
}

/// The values of a list of function definitions.
pub open spec fn def_views(v: Seq<FunctionDef>) -> Seq<FunctionDefView> {
    v.map_values(|f: FunctionDef| f@)
}

/// The values of a list of strings.
pub open spec fn string_views(v: Seq<String>) -> Seq<Seq<char>> {
    v.map_values(|s: String| s@)
}

impl FunctionDef {
    /// Check if a given line (1-based) falls within this function's range.
    pub fn contains_line(&self, line: u32) -> (r: bool)
        ensures
            r == (self.start_line <= line && line <= self.end_line),
    {
        line >= self.start_line && line <= self.end_line
    }

    /// A copy of this definition.
    pub fn duplicate(&self) -> (r: FunctionDef)
        ensures
            r@ == self@,
    {
        FunctionDef {
            name: self.name.clone(),
            file_path: self.file_path.clone(),
            start_line: self.start_line,
            end_line: self.end_line,
            language: self.language.clone(),
        }
    }
}

/// A call relationship between two functions.
#[derive(Debug, Clone)]
pub struct CallEdge {
    pub caller_name: String,
    pub caller_file: String,
    pub callee_name: String,
    /// None if the callee is external (not defined in the analyzed code base)
    pub callee_file: Option<String>,
}

/// The value a `CallEdge` holds.
pub struct CallEdgeView {
    pub caller_name: Seq<char>,
    pub caller_file: Seq<char>,
    pub callee_name: Seq<char>,
    pub callee_file: Option<Seq<char>>,
}

/// The value of an optional string.
pub open spec fn opt_string_view(s: Option<String>) -> Option<Seq<char>> {
    match s {
        Some(x) => Some(x@),
        None => None,
    }
}

impl View for CallEdge {
    type V = CallEdgeView;

    open spec fn view(&self) -> CallEdgeView {
        CallEdgeView {
            caller_name: self.caller_name@,
            caller_file: self.caller_file@,
            callee_name: self.callee_name@,
            callee_file: opt_string_view(self.callee_file),
        }
    }
}

/// The values of a list of call edges.
pub open spec fn edge_views(v: Seq<CallEdge>) -> Seq<CallEdgeView> {
    v.map_values(|e: CallEdge| e@)
}

impl CallEdge {
    /// A copy of this edge.
    pub fn duplicate(&self) -> (r: CallEdge)
        ensures
            r@ == self@,
    {
        CallEdge {
            caller_name: self.caller_name.clone(),
            caller_file: self.caller_file.clone(),
            callee_name: self.callee_name.clone(),
            callee_file: match &self.callee_file {
                Some(f) => Some(f.clone()),
                None => None,
            },
        }
    }
}

/// Risk level classification combining static dependency and temporal coupling.
#[derive(Debug, Clone, Copy, PartialEq, Eq, Structural)]
pub enum RiskLevel {
    /// High: strong code dependency AND highly synchronized changes
    High,
    /// Medium: no direct code dependency but history shows highly
    /// synchronized changes (hidden coupling)
    Medium,
    /// Low: code dependency exists but rarely synchronized changes
    Low,
}

impl RiskLevel {
    /// The level's name: `HIGH`, `MEDIUM` or `LOW`.
    pub fn label(&self) -> (r: &'static str)
        ensures
            r@ == risk_label(*self),
    {
        match self {
            RiskLevel::High => "HIGH",
            RiskLevel::Medium => "MEDIUM",
            RiskLevel::Low => "LOW",
        }
    }

    /// The level's marker: a red, orange or yellow circle.
    pub fn icon(&self) -> (r: &'static str)
        ensures
            r@ == risk_icon(*self),
    {
        match self {
            RiskLevel::High => "\u{1F534}",
            RiskLevel::Medium => "\u{1F7E0}",
            RiskLevel::Low => "\u{1F7E1}",
        }
    }
}

/// The name of a risk level.
pub open spec fn risk_label(r: RiskLevel) -> Seq<char> {
    match r {
        RiskLevel::High => "HIGH"@,
        RiskLevel::Medium => "MEDIUM"@,
        RiskLevel::Low => "LOW"@,
    }
}

/// The marker of a risk level.
pub open spec fn risk_icon(r: RiskLevel) -> Seq<char> {
    match r {
        RiskLevel::High => "\u{1F534}"@,
        RiskLevel::Medium => "\u{1F7E0}"@,
        RiskLevel::Low => "\u{1F7E1}"@,
    }
}

/// The temporal-coupling level from which a change counts as synchronized:
/// 7/10.
pub open spec fn high_coupling() -> Ratio {
    Ratio { num: 7, den: 10 }
}

/// The risk at a coupling threshold:
/// - High: static call AND temporal coupling >= threshold
/// - Medium: no static call AND temporal coupling >= threshold
/// - Low: everything else
pub open spec fn risk_at(has_static_call: bool, temporal_coupling: Ratio, threshold: Ratio) -> RiskLevel {
    if has_static_call && ratio_ge(temporal_coupling, threshold) {
        RiskLevel::High
    } else if !has_static_call && ratio_ge(temporal_coupling, threshold) {
        RiskLevel::Medium
    } else {
        RiskLevel::Low
    }
}

/// The risk at the default threshold, 7/10 (see `risk_at`).
pub open spec fn risk_of(has_static_call: bool, temporal_coupling: Ratio) -> RiskLevel {
    risk_at(has_static_call, temporal_coupling, high_coupling())
}

/// Classify the risk level at a given coupling threshold (see `risk_at`).
pub fn classify_risk_at(has_static_call: bool, temporal_coupling: Ratio, threshold: Ratio) -> (r:
    RiskLevel)
    ensures
        r == risk_at(has_static_call, temporal_coupling, threshold),
{
    if has_static_call && temporal_coupling.at_least(&threshold) {
        RiskLevel::High
    } else if !has_static_call && temporal_coupling.at_least(&threshold) {
        RiskLevel::Medium
    } else {
        RiskLevel::Low
    }
}

/// Classify the risk level based on static dependency and temporal coupling.
pub fn classify_risk(has_static_call: bool, temporal_coupling: Ratio) -> (r: RiskLevel)
    ensures
        r == risk_of(has_static_call, temporal_coupling),
{
    classify_risk_at(has_static_call, temporal_coupling, Ratio::new(7, 10))
}

// ─── Function names ──────────────────────────────────────────────────────────

/// The name an anonymous function takes from the construct it is assigned
/// to, read off its parent.
pub open spec fn parent_context_name(parent: Option<SyntaxNode>, text: Seq<char>) -> Option<
    Seq<char>,
> {
    match parent {
        None => None,
        Some(p) => if p.kind@ == "variable_declarator"@ {
            opt_text(text, field_child(p, "name"@))
        } else if p.kind@ == "assignment_expression"@ {
            match field_child(p, "left"@) {
                None => None,
                Some(left) => if left.kind@ == "member_expression"@ && field_child(
                    left,
                    "property"@,
                ) is Some {
                    opt_text(text, field_child(left, "property"@))
                } else {
                    Some(node_text(text, left))
                },
            }
        } else if p.kind@ == "property"@ || p.kind@ == "pair"@ {
            opt_text(text, field_child(p, "key"@))
        } else {
            None
        },
    }
}

/// The name of a function node: the text of its name node, else the trimmed
/// first line of its text, with anonymous functions named after the
/// construct they are assigned to, or `anonymous`.
pub open spec fn function_name(
    node: SyntaxNode,
    parent: Option<SyntaxNode>,
    text: Seq<char>,
    language: Seq<char>,
) -> Seq<char> {
    match name_node(node, parent, language) {
        Some(n) => node_text(text, n),
        None => {
            let first = trim(before_char(node_text(text, node), '\n'));
            if has_prefix(first, "function"@) || has_prefix(first, "=>"@) || has_prefix(
                first,
                "async"@,
            ) {
                match parent_context_name(parent, text) {
                    Some(s) => s,
                    None => "anonymous"@,
                }
            } else {
                first
            }
        },
    }
}

/// The text of an optional well-formed node as a `String`.
fn opt_node_string(text: &SourceText, n: Option<&SyntaxNode>) -> (r: Option<String>)
    requires
        text.wf(),
    ensures
        r matches Some(s) ==> opt_text(text@, opt_node(n)) == Some(s@),
        r is None ==> opt_text(text@, opt_node(n)) is None,
{
    match n {
        Some(c) => Some(text_string(text, c)),
        None => None,
    }
}

/// The name an anonymous function takes from its parent.
fn parent_context_name_exec(parent: Option<&SyntaxNode>, text: &SourceText) -> (r: Option<String>)
    requires
        text.wf(),
    ensures
        r matches Some(s) ==> parent_context_name(opt_node(parent), text@) == Some(s@),
        r is None ==> parent_context_name(opt_node(parent), text@) is None,
{
    match parent {
        None => None,
        Some(p) => {
            if kind_is(p, "variable_declarator") {
                opt_node_string(text, get_field_child(p, "name"))
            } else if kind_is(p, "assignment_expression") {
                match get_field_child(p, "left") {
                    None => None,
                    Some(left) => {
                        let prop = get_field_child(left, "property");
                        if kind_is(left, "member_expression") && prop.is_some() {
                            opt_node_string(text, prop)
                        } else {
                            Some(text_string(text, left))
                        }
                    },
                }
            } else if kind_is(p, "property") || kind_is(p, "pair") {
                opt_node_string(text, get_field_child(p, "key"))
            } else {
                None
            }
        },
    }
}

/// Extract the name of a function from its syntax node (and its parent).
pub fn extract_function_name(
    node: &SyntaxNode,
    parent: Option<&SyntaxNode>,
    text: &SourceText,
    language: &str,
) -> (r: String)
    requires
        text.wf(),
    ensures
        r@ == function_name(*node, opt_node(parent), text@, language@),
{
    match get_function_name_node(node, parent, language) {
        Some(name_node) => text_string(text, name_node),
        None => {
            let whole = text_of(text, node);
            let first_line = before_char_exec(&whole, '\n');
            let trimmed = trim_exec(&first_line);
            if starts_with_str(&trimmed, "function") || starts_with_str(&trimmed, "=>")
                || starts_with_str(&trimmed, "async") {
                match parent_context_name_exec(parent, text) {
                    Some(s) => s,
                    None => string_from_str("anonymous"),
                }
            } else {
                string_of(&trimmed)
            }
        },
    }
}

// ─── Collecting function definitions ─────────────────────────────────────────

/// The definition a function node describes.
pub open spec fn def_of(
    node: SyntaxNode,
    parent: Option<SyntaxNode>,
    text: Seq<char>,
    file_path: Seq<char>,
    language: Seq<char>,
) -> FunctionDefView {
    FunctionDefView {
        name: function_name(node, parent, text, language),
        file_path,
        start_line: line_of(node.start_row),
        end_line: line_of(node.end_row),
        language,
    }
}

/// The definition of `node` if it is a function node, else nothing.
pub open spec fn own_function(
    node: SyntaxNode,
    parent: Option<SyntaxNode>,
    text: Seq<char>,
    file_path: Seq<char>,
    language: Seq<char>,
) -> Seq<FunctionDefView> {
    if function_kinds(language).contains(node.kind@) {
        seq![def_of(node, parent, text, file_path, language)]
    } else {
        seq![]
    }
}

/// The definitions in the subtrees of the children of `node` from index `i`
/// on, in pre-order.
pub open spec fn functions_below(
    node: SyntaxNode,
    i: nat,
    text: Seq<char>,
    file_path: Seq<char>,
    language: Seq<char>,
) -> Seq<FunctionDefView>
    decreases node, node.children@.len() - i,
{
    if i >= node.children@.len() {
        seq![]
    } else {
        let c = node.children@[i as int];
        own_function(c, Some(node), text, file_path, language) + functions_below(
            c,
            0,
            text,
            file_path,
            language,
        ) + functions_below(node, i + 1, text, file_path, language)
    }
}

/// All function definitions of a tree, in pre-order.
pub open spec fn functions_of_tree(tree: ParsedTree, file_path: Seq<char>, language: Seq<char>) -> Seq<
    FunctionDefView,
> {
    own_function(tree.root, None, tree.text, file_path, language) + functions_below(
        tree.root,
        0,
        tree.text,
        file_path,
        language,
    )
}

/// Collect the function definitions of a subtree into `functions`, in
/// pre-order.
fn collect_function_nodes(
    node: &SyntaxNode,
    parent: Option<&SyntaxNode>,
    text: &SourceText,
    file_path: &str,
    language: &str,
    functions: &mut Vec<FunctionDef>,
)
    requires
        text.wf(),
    ensures
        def_views(final(functions)@) == def_views(old(functions)@) + own_function(
            *node,
            opt_node(parent),
            text@,
            file_path@,
            language@,
        ) + functions_below(*node, 0, text@, file_path@, language@),
    decreases node,
{
    let ghost start = def_views(functions@);
    if crate::analyzer::languages::is_function_node(node.kind.as_str(), language) {
        let name = extract_function_name(node, parent, text, language);
        let def = FunctionDef {
            name,
            file_path: string_from_str(file_path),
            start_line: line_of_row(node.start_row),
            end_line: line_of_row(node.end_row),
            language: string_from_str(language),
        };
        functions.push(def);
        assert(def_views(functions@) =~= start + own_function(
            *node,
            opt_node(parent),
            text@,
            file_path@,
            language@,
        ));
    } else {
        assert(def_views(functions@) =~= start + own_function(
            *node,
            opt_node(parent),
            text@,
            file_path@,
            language@,
        ));
    }
    let ghost mid = def_views(functions@);
    let mut i: usize = 0;
    while i < node.children.len()
        invariant
            text.wf(),
            0 <= i <= node.children@.len(),
            def_views(functions@) + functions_below(*node, i as nat, text@, file_path@, language@)
                == mid + functions_below(*node, 0, text@, file_path@, language@),
        decreases node.children.len() - i,
    {
        let ghost before = def_views(functions@);
        collect_function_nodes(&node.children[i], Some(node), text, file_path, language, functions);
        assert(def_views(functions@) + functions_below(*node, (i + 1) as nat, text@, file_path@, language@)
            =~= before + functions_below(*node, i as nat, text@, file_path@, language@));
        i += 1;
    }
    assert(functions_below(*node, i as nat, text@, file_path@, language@) =~= seq![]);
    assert(def_views(functions@) =~= mid + functions_below(*node, 0, text@, file_path@, language@));
}

/// Every definition of the list starts on a line numbered 1 or more.
pub open spec fn lines_positive(s: Seq<FunctionDefView>) -> bool {
    forall|k: int| 0 <= k < s.len() ==> (#[trigger] s[k]).start_line >= 1
}

/// Definitions read off a subtree start on line 1 or later.
pub proof fn lemma_functions_below_lines(
    node: SyntaxNode,
    i: nat,
    text: Seq<char>,
    file_path: Seq<char>,
    language: Seq<char>,
)
    ensures
        lines_positive(functions_below(node, i, text, file_path, language)),
    decreases node, node.children@.len() - i,
{
    if i < node.children@.len() {
        let c = node.children@[i as int];
        lemma_functions_below_lines(c, 0, text, file_path, language);
        lemma_functions_below_lines(node, i + 1, text, file_path, language);
        let own = own_function(c, Some(node), text, file_path, language);
        assert(lines_positive(own));
        let a = functions_below(c, 0, text, file_path, language);
        let b = functions_below(node, i + 1, text, file_path, language);
        assert(lines_positive(own + a + b)) by {
            assert forall|k: int| 0 <= k < (own + a + b).len() implies (#[trigger] (own + a
                + b)[k]).start_line >= 1 by {
                if k < own.len() {
                    assert((own + a + b)[k] == own[k]);
                } else if k < own.len() + a.len() {
                    assert((own + a + b)[k] == a[k - own.len()]);
                } else {
                    assert((own + a + b)[k] == b[k - own.len() - a.len()]);
                }
            }
        }
    }
}

/// Definitions read off a tree start on line 1 or later.
pub proof fn lemma_functions_of_tree_lines(tree: ParsedTree, file_path: Seq<char>, language: Seq<char>)
    ensures
        lines_positive(functions_of_tree(tree, file_path, language)),
{
    lemma_functions_below_lines(tree.root, 0, tree.text, file_path, language);
    let own = own_function(tree.root, None, tree.text, file_path, language);
    let b = functions_below(tree.root, 0, tree.text, file_path, language);
    assert forall|k: int| 0 <= k < (own + b).len() implies (#[trigger] (own + b)[k]).start_line >= 1 by {
        if k < own.len() {
            assert((own + b)[k] == own[k]);
        } else {
            assert((own + b)[k] == b[k - own.len()]);
        }
    }
}

/// All function definitions of a parsed file, in pre-order.
pub fn functions_in_tree(tree: &SyntaxTree, file_path: &str, language: &str) -> (r: Vec<
    FunctionDef,
>)
    requires
        tree.wf(),
    ensures
        def_views(r@) == functions_of_tree(tree@, file_path@, language@),
{
    let mut functions: Vec<FunctionDef> = Vec::new();
    collect_function_nodes(&tree.root, None, &tree.text, file_path, language, &mut functions);
    assert(def_views(functions@) =~= functions_of_tree(tree@, file_path@, language@));
    functions
}

// ─── Locating the function at a line ─────────────────────────────────────────

/// The innermost function node that spans row `row`, searched from child `i`
/// of `node` on: the first child (in order) whose subtree holds one wins,
/// else `node` itself when it is a function node. Returned with its parent.
pub open spec fn function_node_search(
    node: SyntaxNode,
    parent: Option<SyntaxNode>,
    i: nat,
    row: int,
    language: Seq<char>,
) -> Option<(SyntaxNode, Option<SyntaxNode>)>
    decreases node, node.children@.len() - i,
{
    if node.start_row > row || node.end_row < row {
        None
    } else if i >= node.children@.len() {
        if function_kinds(language).contains(node.kind@) {
            Some((node, parent))
        } else {
            None
        }
    } else {
        match function_node_search(node.children@[i as int], Some(node), 0, row, language) {
            Some(found) => Some(found),
            None => function_node_search(node, parent, i + 1, row, language),
        }
    }
}

/// Recursively search for the innermost function node that contains the
/// given line (1-based); returned with its parent.
pub(crate) fn find_function_node<'a>(
    node: &'a SyntaxNode,
    parent: Option<&'a SyntaxNode>,
    line: u32,
    language: &str,
) -> (r: Option<(&'a SyntaxNode, Option<&'a SyntaxNode>)>)
    requires
        line >= 1,
    ensures
        r matches Some((f, p)) ==> function_node_search(*node, opt_node(parent), 0, line - 1, language@)
            == Some((*f, opt_node(p))),
        r is None ==> function_node_search(*node, opt_node(parent), 0, line - 1, language@) is None,
    decreases node,
{
    let target_row = line as usize - 1;
    if node.start_row > target_row || node.end_row < target_row {
        return None;
    }
    let is_function = crate::analyzer::languages::is_function_node(node.kind.as_str(), language);
    let mut i: usize = 0;
    while i < node.children.len()
        invariant
            line >= 1,
            target_row == line - 1,
            !(node.start_row > target_row || node.end_row < target_row),
            0 <= i <= node.children@.len(),
            function_node_search(*node, opt_node(parent), 0, line - 1, language@)
                == function_node_search(*node, opt_node(parent), i as nat, line - 1, language@),
        decreases node.children.len() - i,
    {
        if let Some(found) = find_function_node(&node.children[i], Some(node), line, language) {
            return Some(found);
        }
        i += 1;
    }
    if is_function {
        Some((node, parent))
    } else {
        None
    }
}

/// The function definition spanning a line in a parsed file, if any.
pub open spec fn function_at_line_of_tree(
    tree: ParsedTree,
    file_path: Seq<char>,
    language: Seq<char>,
    line: u32,
) -> Option<FunctionDefView> {
    match function_node_search(tree.root, None, 0, line - 1, language) {
        Some((f, p)) => Some(def_of(f, p, tree.text, file_path, language)),
        None => None,
    }
}

/// The function definition spanning a line (1-based) in a parsed file.
pub fn function_at_line_in_tree(tree: &SyntaxTree, file_path: &str, language: &str, line: u32) -> (r:
    Option<FunctionDef>)
    requires
        tree.wf(),
        line >= 1,
    ensures
        r matches Some(f) ==> function_at_line_of_tree(tree@, file_path@, language@, line) == Some(
            f@,
        ),
        r is None ==> function_at_line_of_tree(tree@, file_path@, language@, line) is None,
{
    match find_function_node(&tree.root, None, line, language) {
        Some((func_node, parent)) => {
            let name = extract_function_name(func_node, parent, &tree.text, language);
            Some(
                FunctionDef {
                    name,
                    file_path: string_from_str(file_path),
                    start_line: line_of_row(func_node.start_row),
                    end_line: line_of_row(func_node.end_row),
                    language: string_from_str(language),
                },
            )
        },
        None => None,
    }
}

// ─── Entry points that parse ─────────────────────────────────────────────────

/// Detect the programming language from a file extension.
pub fn detect_language(file_path: &str) -> (r: Option<String>)
    ensures
        r is Some <==> language_of_path(file_path@) is Some,
        r matches Some(s) ==> language_of_path(file_path@) == Some(s@),
{
    crate::analyzer::languages::detect_language_from_path(file_path)
}

/// Find the function definition at a given line (1-based) in a source file.
///
/// `Ok(None)` for a file of unknown language or one without a grammar;
/// otherwise the function that `function_at_line_of_tree` names in the
/// file's parse.
pub fn find_function_at_line(file_path: &str, source: &str, line: u32) -> (r: Result<
    Option<FunctionDef>,
    AnalyzeError,
>)
    requires
        line >= 1 || !(language_of_path(file_path@) matches Some(l) && has_grammar(l)),
    ensures
        match language_of_path(file_path@) {
            None => r matches Ok(None),
            Some(l) => if has_grammar(l) {
                r matches Ok(found) && function_at_line_of_tree(parsed(l, source@), file_path@, l, line)
                    == match found {
                    Some(f) => Some(f@),
                    None => None::<FunctionDefView>,
                }
            } else {
                r matches Ok(None)
            },
        },
{
    let language_name = match detect_language(file_path) {
        Some(lang) => lang,
        None => return Ok(None),
    };
    let tree = match parse_source(source, language_name.as_str()) {
        Err(e) => return Err(e),
        Ok(None) => return Ok(None),
        Ok(Some(t)) => t,
    };
    let r = function_at_line_in_tree(&tree, file_path, language_name.as_str(), line);
    Ok(r)
}

/// Extract all function definitions from a source file.
///
/// Empty for a file of unknown language or one without a grammar; otherwise
/// what `functions_of_tree` gives for the file's parse.
pub fn extract_functions(file_path: &str, source: &str) -> (r: Result<Vec<FunctionDef>, AnalyzeError>)
    ensures
        match language_of_path(file_path@) {
            None => (r matches Ok(v) && v@.len() == 0),
            Some(l) => if has_grammar(l) {
                r matches Ok(v) && def_views(v@) == functions_of_tree(parsed(l, source@), file_path@, l)
            } else {
                (r matches Ok(v) && v@.len() == 0)
            },
        },
{
    let language_name = match detect_language(file_path) {
        Some(lang) => lang,
        None => return Ok(Vec::new()),
    };
    let tree = match parse_source(source, language_name.as_str()) {
        Err(e) => return Err(e),
        Ok(None) => return Ok(Vec::new()),
        Ok(Some(t)) => t,
    };
    let functions = functions_in_tree(&tree, file_path, language_name.as_str());
    Ok(functions)
}

// ─── Mapping diffs to functions ──────────────────────────────────────────────

/// A line range `(start, end)` overlaps a function's lines.
pub open spec fn range_overlaps(range: (u32, u32), f: FunctionDefView) -> bool {
    range.0 <= f.end_line && range.1 >= f.start_line
}

/// Some range of `ranges` overlaps the function.
pub open spec fn touched_by(f: FunctionDefView, ranges: Seq<(u32, u32)>) -> bool {
    exists|j: int| 0 <= j < ranges.len() && range_overlaps(#[trigger] ranges[j], f)
}

/// The functions of `fs` that some range overlaps, in order.
pub open spec fn touched_functions(fs: Seq<FunctionDefView>, ranges: Seq<(u32, u32)>) -> Seq<
    FunctionDefView,
>
    decreases fs.len(),
{
    if fs.len() == 0 {
        seq![]
    } else if touched_by(fs.last(), ranges) {
        touched_functions(fs.drop_last(), ranges).push(fs.last())
    } else {
        touched_functions(fs.drop_last(), ranges)
    }
}

/// The functions that some diff range (`start`, `end`, inclusive) overlaps.
pub fn functions_touched(functions: &Vec<FunctionDef>, diff_ranges: &Vec<(u32, u32)>) -> (r: Vec<
    FunctionDef,
>)
    ensures
        def_views(r@) == touched_functions(def_views(functions@), diff_ranges@),
{
    let mut modified: Vec<FunctionDef> = Vec::new();
    let mut i: usize = 0;
    while i < functions.len()
        invariant
            0 <= i <= functions@.len(),
            def_views(modified@) == touched_functions(def_views(functions@).take(i as int), diff_ranges@),
        decreases functions.len() - i,
    {
        let func = &functions[i];
        let mut hit = false;
        let mut j: usize = 0;
        while j < diff_ranges.len()
            invariant
                0 <= j <= diff_ranges@.len(),
                i < functions@.len(),
                func == functions@[i as int],
                hit == exists|k: int| 0 <= k < j && range_overlaps(#[trigger] diff_ranges@[k], func@),
            decreases diff_ranges.len() - j,
        {
            let (start, end) = diff_ranges[j];
            if start <= func.end_line && end >= func.start_line {
                hit = true;
            }
            j += 1;
        }
        assert(def_views(functions@).take(i + 1).drop_last() =~= def_views(functions@).take(i as int));
        assert(def_views(functions@).take(i + 1).last() == func@);
        if hit {
            modified.push(func.duplicate());
            assert(def_views(modified@) =~= touched_functions(def_views(functions@).take(i as int), diff_ranges@).push(func@));
        }
        i += 1;
    }
    assert(def_views(functions@).take(functions@.len() as int) =~= def_views(functions@));
    modified
}

/// Map diff line ranges to the functions that were modified: the functions of
/// the file (see `extract_functions`) that some range overlaps.
pub fn map_diff_to_functions(file_path: &str, source: &str, diff_ranges: &Vec<(u32, u32)>) -> (r:
    Result<Vec<FunctionDef>, AnalyzeError>)
    ensures
        match language_of_path(file_path@) {
            Some(l) => if has_grammar(l) {
                r matches Ok(v) && def_views(v@) == touched_functions(
                    functions_of_tree(parsed(l, source@), file_path@, l),
                    diff_ranges@,
                )
            } else {
                (r matches Ok(v) && v@.len() == 0)
            },
            None => (r matches Ok(v) && v@.len() == 0),
        },
{
    let functions = match extract_functions(file_path, source) {
        Ok(f) => f,
        Err(e) => return Err(e),
    };
    let r = functions_touched(&functions, diff_ranges);
    proof {
        if functions@.len() == 0 {
            assert(def_views(functions@) =~= seq![]);
            assert(touched_functions(def_views(functions@), diff_ranges@) =~= seq![]);
            assert(def_views(r@).len() == 0);
        }
    }
    Ok(r)
}

} // verus!
