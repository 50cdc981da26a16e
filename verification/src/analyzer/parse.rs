//! Parsing with tree-sitter: the grammars, the parser, and the reading of
//! tree-sitter's tree into the analyzer's own `SyntaxNode`s.

use vstd::prelude::*;

use tree_sitter::{Language, LanguageError, Parser, TreeCursor};

use crate::analyzer::languages::has_grammar;
use crate::analyzer::syntax::{source_text, ParsedTree, SyntaxNode, SyntaxTree};
use crate::text::{str_eq, string_from_str};

verus! {

#[verifier::external_type_specification]
#[verifier::external_body]
pub struct ExLanguage(tree_sitter::Language);

#[verifier::external_type_specification]
#[verifier::external_body]
pub struct ExLanguageError(tree_sitter::LanguageError);

#[verifier::external_type_specification]
#[verifier::external_body]
pub struct ExParser(tree_sitter::Parser);

#[verifier::external_type_specification]
#[verifier::external_body]
pub struct ExTreeCursor<'cursor>(tree_sitter::TreeCursor<'cursor>);

/// Why a source file could not be parsed.
#[derive(Debug, Clone, Copy, PartialEq, Eq)]
pub enum AnalyzeError {
    /// The parser returned no tree.
    ParseFailed,
}

// ─── Grammars ────────────────────────────────────────────────────────────────

/// The Rust grammar (`tree_sitter_rust::LANGUAGE`).
#[verifier::external_body]
fn rust_grammar() -> Language {
    tree_sitter_rust::LANGUAGE.into()
}

/// The JavaScript grammar (`tree_sitter_javascript::LANGUAGE`).
#[verifier::external_body]
fn javascript_grammar() -> Language {
    tree_sitter_javascript::LANGUAGE.into()
}

/// The TypeScript grammar (`tree_sitter_typescript::LANGUAGE_TYPESCRIPT`).
#[verifier::external_body]
fn typescript_grammar() -> Language {
    tree_sitter_typescript::LANGUAGE_TYPESCRIPT.into()
}

/// The TSX grammar (`tree_sitter_typescript::LANGUAGE_TSX`).
#[verifier::external_body]
fn tsx_grammar() -> Language {
    tree_sitter_typescript::LANGUAGE_TSX.into()
}

/// The Python grammar (`tree_sitter_python::LANGUAGE`).
#[verifier::external_body]
fn python_grammar() -> Language {
    tree_sitter_python::LANGUAGE.into()
}

/// The Go grammar (`tree_sitter_go::LANGUAGE`).
#[verifier::external_body]
fn go_grammar() -> Language {
    tree_sitter_go::LANGUAGE.into()
}

/// The Java grammar (`tree_sitter_java::LANGUAGE`).
#[verifier::external_body]
fn java_grammar() -> Language {
    tree_sitter_java::LANGUAGE.into()
}

/// The C grammar (`tree_sitter_c::LANGUAGE`).
#[verifier::external_body]
fn c_grammar() -> Language {
    tree_sitter_c::LANGUAGE.into()
}

/// The C++ grammar (`tree_sitter_cpp::LANGUAGE`).
#[verifier::external_body]
fn cpp_grammar() -> Language {
    tree_sitter_cpp::LANGUAGE.into()
}

/// Get the tree-sitter grammar for a language name; `None` for languages
/// without one.
pub fn get_language(name: &str) -> (r: Option<Language>)
    ensures
        r is Some <==> has_grammar(name@),
{
    if str_eq(name, "rust") {
        Some(rust_grammar())
    } else if str_eq(name, "javascript") {
        Some(javascript_grammar())
    } else if str_eq(name, "typescript") {
        Some(typescript_grammar())
    } else if str_eq(name, "tsx") {
        Some(tsx_grammar())
    } else if str_eq(name, "python") {
        Some(python_grammar())
    } else if str_eq(name, "go") {
        Some(go_grammar())
    } else if str_eq(name, "java") {
        Some(java_grammar())
    } else if str_eq(name, "c") {
        Some(c_grammar())
    } else if str_eq(name, "cpp") {
        Some(cpp_grammar())
    } else {
        None
    }
}

// ─── Parser ──────────────────────────────────────────────────────────────────

/// A fresh parser (`Parser::new`).
#[verifier::external_body]
fn new_parser() -> Parser {
    Parser::new()
}

/// `Parser::set_language` with the Rust grammar (`tree_sitter_rust::LANGUAGE`). It
/// succeeds: `set_language` fails only for an ABI version outside
/// `MIN_COMPATIBLE_LANGUAGE_VERSION..=LANGUAGE_VERSION` (13 to 15), and the
/// grammar's `src/parser.c` in tree-sitter-rust declares version 15.
#[verifier::external_body]
fn set_rust_grammar(parser: &mut Parser) -> (r: Result<(), LanguageError>)
    ensures
        r is Ok,
{
    parser.set_language(&tree_sitter_rust::LANGUAGE.into())
}

/// `Parser::set_language` with the JavaScript grammar (`tree_sitter_javascript::LANGUAGE`). It
/// succeeds: `set_language` fails only for an ABI version outside
/// `MIN_COMPATIBLE_LANGUAGE_VERSION..=LANGUAGE_VERSION` (13 to 15), and the
/// grammar's `src/parser.c` in tree-sitter-javascript declares version 14.
#[verifier::external_body]
fn set_javascript_grammar(parser: &mut Parser) -> (r: Result<(), LanguageError>)
    ensures
        r is Ok,
{
    parser.set_language(&tree_sitter_javascript::LANGUAGE.into())
}

/// `Parser::set_language` with the TypeScript grammar (`tree_sitter_typescript::LANGUAGE_TYPESCRIPT`). It
/// succeeds: `set_language` fails only for an ABI version outside
/// `MIN_COMPATIBLE_LANGUAGE_VERSION..=LANGUAGE_VERSION` (13 to 15), and the
/// grammar's `typescript/src/parser.c` in tree-sitter-typescript declares version 14.
#[verifier::external_body]
fn set_typescript_grammar(parser: &mut Parser) -> (r: Result<(), LanguageError>)
    ensures
        r is Ok,
{
    parser.set_language(&tree_sitter_typescript::LANGUAGE_TYPESCRIPT.into())
}

/// `Parser::set_language` with the TSX grammar (`tree_sitter_typescript::LANGUAGE_TSX`). It
/// succeeds: `set_language` fails only for an ABI version outside
/// `MIN_COMPATIBLE_LANGUAGE_VERSION..=LANGUAGE_VERSION` (13 to 15), and the
/// grammar's `tsx/src/parser.c` in tree-sitter-typescript declares version 14.
#[verifier::external_body]
fn set_tsx_grammar(parser: &mut Parser) -> (r: Result<(), LanguageError>)
    ensures
        r is Ok,
{
    parser.set_language(&tree_sitter_typescript::LANGUAGE_TSX.into())
}

/// `Parser::set_language` with the Python grammar (`tree_sitter_python::LANGUAGE`). It
/// succeeds: `set_language` fails only for an ABI version outside
/// `MIN_COMPATIBLE_LANGUAGE_VERSION..=LANGUAGE_VERSION` (13 to 15), and the
/// grammar's `src/parser.c` in tree-sitter-python declares version 14.
#[verifier::external_body]
fn set_python_grammar(parser: &mut Parser) -> (r: Result<(), LanguageError>)
    ensures
        r is Ok,
{
    parser.set_language(&tree_sitter_python::LANGUAGE.into())
}

/// `Parser::set_language` with the Go grammar (`tree_sitter_go::LANGUAGE`). It
/// succeeds: `set_language` fails only for an ABI version outside
/// `MIN_COMPATIBLE_LANGUAGE_VERSION..=LANGUAGE_VERSION` (13 to 15), and the
/// grammar's `src/parser.c` in tree-sitter-go declares version 14.
#[verifier::external_body]
fn set_go_grammar(parser: &mut Parser) -> (r: Result<(), LanguageError>)
    ensures
        r is Ok,
{
    parser.set_language(&tree_sitter_go::LANGUAGE.into())
}

/// `Parser::set_language` with the Java grammar (`tree_sitter_java::LANGUAGE`). It
/// succeeds: `set_language` fails only for an ABI version outside
/// `MIN_COMPATIBLE_LANGUAGE_VERSION..=LANGUAGE_VERSION` (13 to 15), and the
/// grammar's `src/parser.c` in tree-sitter-java declares version 14.
#[verifier::external_body]
fn set_java_grammar(parser: &mut Parser) -> (r: Result<(), LanguageError>)
    ensures
        r is Ok,
{
    parser.set_language(&tree_sitter_java::LANGUAGE.into())
}

/// `Parser::set_language` with the C grammar (`tree_sitter_c::LANGUAGE`). It
/// succeeds: `set_language` fails only for an ABI version outside
/// `MIN_COMPATIBLE_LANGUAGE_VERSION..=LANGUAGE_VERSION` (13 to 15), and the
/// grammar's `src/parser.c` in tree-sitter-c declares version 15.
#[verifier::external_body]
fn set_c_grammar(parser: &mut Parser) -> (r: Result<(), LanguageError>)
    ensures
        r is Ok,
{
    parser.set_language(&tree_sitter_c::LANGUAGE.into())
}

/// `Parser::set_language` with the C++ grammar (`tree_sitter_cpp::LANGUAGE`). It
/// succeeds: `set_language` fails only for an ABI version outside
/// `MIN_COMPATIBLE_LANGUAGE_VERSION..=LANGUAGE_VERSION` (13 to 15), and the
/// grammar's `src/parser.c` in tree-sitter-cpp declares version 14.
#[verifier::external_body]
fn set_cpp_grammar(parser: &mut Parser) -> (r: Result<(), LanguageError>)
    ensures
        r is Ok,
{
    parser.set_language(&tree_sitter_cpp::LANGUAGE.into())
}

/// Sets the grammar of a language that has one on the parser.
fn set_grammar(parser: &mut Parser, name: &str)
    requires
        has_grammar(name@),
{
    let _ = if str_eq(name, "rust") {
        set_rust_grammar(parser)
    } else if str_eq(name, "javascript") {
        set_javascript_grammar(parser)
    } else if str_eq(name, "typescript") {
        set_typescript_grammar(parser)
    } else if str_eq(name, "tsx") {
        set_tsx_grammar(parser)
    } else if str_eq(name, "python") {
        set_python_grammar(parser)
    } else if str_eq(name, "go") {
        set_go_grammar(parser)
    } else if str_eq(name, "java") {
        set_java_grammar(parser)
    } else if str_eq(name, "c") {
        set_c_grammar(parser)
    } else {
        set_cpp_grammar(parser)
    };
}

/// A parser with the grammar of `language` set: its only constructor,
/// `GrammarParser::for_language`, sets that grammar, and nothing sets a
/// timeout or a cancellation flag on it.
struct GrammarParser {
    parser: Parser,
    language: String,
}

impl GrammarParser {
    /// A parser with the grammar of a language that has one.
    fn for_language(name: &str) -> (r: GrammarParser)
        requires
            has_grammar(name@),
        ensures
            r.language@ == name@,
    {
        let mut parser = new_parser();
        set_grammar(&mut parser, name);
        GrammarParser { parser, language: string_from_str(name) }
    }
}

/// The syntax tree tree-sitter builds for `source` with the grammar of
/// `language`: every node with its kind, its rows, its byte offsets, its
/// children in order and the field names they stand under. Parsing is a
/// function of the grammar and the text alone.
pub uninterp spec fn grammar_tree(language: Seq<char>, source: Seq<char>) -> SyntaxNode;

/// Reads the node under a tree cursor, with its subtree, into a
/// `SyntaxNode`, one for one: `Node::kind`, the rows of
/// `Node::start_position` and `Node::end_position`, `Node::start_byte`,
/// `Node::end_byte`, and each child the cursor visits (`goto_first_child`,
/// `goto_next_sibling`) with the `TreeCursor::field_name` it stands under;
/// the cursor is back on the node afterwards. Only `grammar_parse` calls it,
/// and what is claimed of the result is claimed there.
#[verifier::external_body]
fn read_node(cursor: &mut TreeCursor) -> SyntaxNode {
    let (node, mut fields, mut children) = (cursor.node(), Vec::new(), Vec::new());
    let mut more = cursor.goto_first_child();
    while more {
        if let Some(f) = cursor.field_name() {
            fields.push((f.to_string(), children.len()));
        }
        children.push(read_node(cursor));
        more = cursor.goto_next_sibling() || !cursor.goto_parent();
    }
    let (start_row, end_row) = (node.start_position().row, node.end_position().row);
    SyntaxNode { kind: node.kind().to_string(), start_row, end_row, start: node.start_byte(), end: node.end_byte(), fields, children }
}

/// `Parser::parse` on the whole text, with no earlier tree, by a parser
/// with the grammar of `p.language` set, and the tree read into
/// `SyntaxNode`s. tree-sitter's `parse` returns no tree only when no
/// language was set, a timeout expired or a cancellation flag was flipped;
/// a `GrammarParser` has a grammar set and neither of the others, so a
/// tree comes back, and it is `grammar_tree` of the language and the text.
#[verifier::external_body]
fn grammar_parse(p: &mut GrammarParser, source: &str) -> (r: Option<SyntaxNode>)
    ensures
        r == Some(grammar_tree(old(p).language@, source@)),
{
    match p.parser.parse(source, None) {
        Some(tree) => Some(read_node(&mut tree.walk())),
        None => None,
    }
}

/// What parsing `source` with the grammar of `language` gives: the named
/// tree over the source's characters.
pub open spec fn parsed(language: Seq<char>, source: Seq<char>) -> ParsedTree {
    ParsedTree { root: grammar_tree(language, source), text: source }
}

/// Parse a source file with the grammar of `language_name`: `Ok(None)` when
/// there is no grammar for it; otherwise the tree the parser gives, over
/// the source's text.
pub fn parse_source(source: &str, language_name: &str) -> (r: Result<Option<SyntaxTree>, AnalyzeError>)
    ensures
        !has_grammar(language_name@) ==> r == Ok::<Option<SyntaxTree>, AnalyzeError>(None),
        has_grammar(language_name@) ==> (r matches Ok(Some(t)) && t.wf() && t@ == parsed(
            language_name@,
            source@,
        )),
{
    if get_language(language_name).is_none() {
        return Ok(None);
    }
    let mut parser = GrammarParser::for_language(language_name);
    let root = match grammar_parse(&mut parser, source) {
        Some(t) => t,
        None => return Err(AnalyzeError::ParseFailed),
    };
    Ok(Some(SyntaxTree { root, text: source_text(source) }))
}

} // verus!
