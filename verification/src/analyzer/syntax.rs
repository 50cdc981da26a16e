//! The concrete syntax tree that the analyzer reads: every node of a parsed
//! source file with its kind, its row span, its span of bytes in the
//! source text, its children in order and the names of the fields under
//! which some of the children stand; and the source text with the mapping
//! from byte offsets to characters.

use vstd::prelude::*;

use crate::text::{chars_eq_str, chars_of, slice_chars, str_eq, string_of_range};

verus! {

/// One node of a concrete syntax tree, as the parser gives it.
pub struct SyntaxNode {
    /// Grammar kind of the node, e.g. `function_item`.
    pub kind: String,
    /// First row (0-based) the node covers.
    pub start_row: usize,
    /// Last row (0-based) the node covers.
    pub end_row: usize,
    /// Byte offset of the node's first byte in the source (UTF-8).
    pub start: usize,
    /// Byte offset one past the node's last byte in the source.
    pub end: usize,
    /// Field names, each with the index of the child that stands under it,
    /// in the children's order.
    pub fields: Vec<(String, usize)>,
    /// Children, in source order.
    pub children: Vec<SyntaxNode>,
}

/// The number of bytes UTF-8 takes for a character.
pub open spec fn utf8_width(c: char) -> nat {
    let u = c as u32;
    if u < 0x80 {
        1
    } else if u < 0x800 {
        2
    } else if u < 0x10000 {
        3
    } else {
        4
    }
}

/// For each byte of the UTF-8 encoding of `s`, the index of the character
/// it belongs to.
pub open spec fn char_table_body(s: Seq<char>) -> Seq<usize>
    decreases s.len(),
{
    if s.len() == 0 {
        seq![]
    } else {
        char_table_body(s.drop_last()) + Seq::new(
            utf8_width(s.last()),
            |i: int| (s.len() - 1) as usize,
        )
    }
}

/// The character index of each byte offset of `s`, and the character count
/// for the offset one past the end.
pub open spec fn char_table(s: Seq<char>) -> Seq<usize> {
    char_table_body(s).push(s.len() as usize)
}

/// The character index of a byte offset: that of the character the byte
/// belongs to, the character count for an offset at or past the end.
pub open spec fn char_pos(text: Seq<char>, byte: usize) -> int {
    if byte < char_table(text).len() {
        char_table(text)[byte as int] as int
    } else {
        text.len() as int
    }
}

/// The characters of a node's span: from the character of its first byte
/// to that of its end (an empty span where the start lies after the end).
pub open spec fn node_span(text: Seq<char>, n: SyntaxNode) -> (int, int) {
    let e = char_pos(text, n.end);
    let s = char_pos(text, n.start);
    (if s > e {
        e
    } else {
        s
    }, e)
}

/// The line number (1-based) of a 0-based row, held at `u32::MAX`.
pub open spec fn line_of(row: usize) -> u32 {
    if row < 0xffff_ffff {
        (row + 1) as u32
    } else {
        0xffff_ffffu32
    }
}

/// The line number (1-based) of a 0-based row (see `line_of`).
pub fn line_of_row(row: usize) -> (r: u32)
    ensures
        r == line_of(row),
{
    if row < 0xffff_ffff {
        (row + 1) as u32
    } else {
        0xffff_ffff
    }
}

/// A source text: its characters and the character index of each byte
/// offset of its UTF-8 encoding.
pub struct SourceText {
    pub chars: Vec<char>,
    pub table: Vec<usize>,
}

impl View for SourceText {
    type V = Seq<char>;

    open spec fn view(&self) -> Seq<char> {
        self.chars@
    }
}

impl SourceText {
    /// The table is that of the characters.
    pub open spec fn wf(&self) -> bool {
        self.table@ == char_table(self.chars@)
    }
}

/// A parsed source file: its text and the root of its syntax tree.
pub struct SyntaxTree {
    pub root: SyntaxNode,
    pub text: SourceText,
}

/// What a parsed source file holds: the root of its syntax tree and its
/// characters.
pub struct ParsedTree {
    pub root: SyntaxNode,
    pub text: Seq<char>,
}

impl View for SyntaxTree {
    type V = ParsedTree;

    open spec fn view(&self) -> ParsedTree {
        ParsedTree { root: self.root, text: self.text@ }
    }
}

impl SyntaxTree {
    /// The text's table is exact.
    pub open spec fn wf(&self) -> bool {
        self.text.wf()
    }
}

/// Entries of the table body lie below the character count.
pub proof fn lemma_char_table_body_bound(s: Seq<char>)
    ensures
        forall|i: int| 0 <= i < char_table_body(s).len() ==> char_table_body(s)[i] < s.len(),
    decreases s.len(),
{
    if s.len() > 0 {
        let front = char_table_body(s.drop_last());
        let back = Seq::new(utf8_width(s.last()), |i: int| (s.len() - 1) as usize);
        lemma_char_table_body_bound(s.drop_last());
        assert forall|i: int| 0 <= i < char_table_body(s).len() implies char_table_body(s)[i]
            < s.len() by {
            if i < front.len() {
                assert(char_table_body(s)[i] == front[i]);
            } else {
                assert(char_table_body(s)[i] == back[i - front.len()]);
            }
        }
    }
}

/// A character index is at most the character count.
pub proof fn lemma_char_pos_bound(text: Seq<char>, byte: usize)
    ensures
        0 <= char_pos(text, byte) <= text.len(),
{
    lemma_char_table_body_bound(text);
    let t = char_table(text);
    if byte < t.len() {
        if (byte as int) < char_table_body(text).len() {
            assert(t[byte as int] == char_table_body(text)[byte as int]);
        }
    }
}

fn utf8_width_exec(c: char) -> (w: usize)
    ensures
        w == utf8_width(c),
{
    let u = c as u32;
    if u < 0x80 {
        1
    } else if u < 0x800 {
        2
    } else if u < 0x10000 {
        3
    } else {
        4
    }
}

/// The source text of a string: its characters and their byte table.
pub fn source_text(source: &str) -> (r: SourceText)
    ensures
        r.wf(),
        r@ == source@,
{
    let text = chars_of(source);
    let mut t: Vec<usize> = Vec::new();
    let mut k: usize = 0;
    while k < text.len()
        invariant
            0 <= k <= text@.len(),
            t@ == char_table_body(text@.take(k as int)),
        decreases text.len() - k,
    {
        let w = utf8_width_exec(text[k]);
        let ghost before = t@;
        let mut m: usize = 0;
        while m < w
            invariant
                0 <= m <= w,
                k < text@.len(),
                t@ == before + Seq::new(m as nat, |i: int| k),
            decreases w - m,
        {
            t.push(k);
            assert(t@ =~= before + Seq::new((m + 1) as nat, |i: int| k));
            m += 1;
        }
        assert(text@.take(k + 1).drop_last() =~= text@.take(k as int));
        assert(text@.take(k + 1).last() == text@[k as int]);
        assert(t@ =~= char_table_body(text@.take(k + 1)));
        k += 1;
    }
    assert(text@.take(text@.len() as int) =~= text@);
    t.push(text.len());
    SourceText { chars: text, table: t }
}

/// The character index of a byte offset (see `char_pos`).
pub fn char_pos_of(text: &SourceText, byte: usize) -> (r: usize)
    requires
        text.wf(),
    ensures
        r == char_pos(text@, byte),
        r <= text@.len(),
{
    proof {
        lemma_char_pos_bound(text@, byte);
    }
    if byte < text.table.len() {
        text.table[byte]
    } else {
        text.chars.len()
    }
}

/// The node an optional reference points to.
pub open spec fn opt_node(p: Option<&SyntaxNode>) -> Option<SyntaxNode> {
    match p {
        Some(x) => Some(*x),
        None => None,
    }
}

/// The characters a node spans (see `node_span`).
pub open spec fn node_text(text: Seq<char>, n: SyntaxNode) -> Seq<char> {
    text.subrange(node_span(text, n).0, node_span(text, n).1)
}

/// Index of the first field entry named `f`, or -1.
pub open spec fn first_field(fields: Seq<(String, usize)>, f: Seq<char>) -> int
    decreases fields.len(),
{
    if fields.len() == 0 {
        -1
    } else if fields[0].0@ == f {
        0
    } else {
        let k = first_field(fields.drop_first(), f);
        if k < 0 {
            -1
        } else {
            k + 1
        }
    }
}

/// The child standing under field `f` (tree-sitter's `child_by_field_name`).
pub open spec fn field_child(n: SyntaxNode, f: Seq<char>) -> Option<SyntaxNode> {
    let k = first_field(n.fields@, f);
    if k < 0 {
        None
    } else {
        let idx = n.fields@[k].1;
        if idx < n.children@.len() {
            Some(n.children@[idx as int])
        } else {
            None
        }
    }
}

/// The `i`-th child (tree-sitter's `child`).
pub open spec fn nth_child(n: SyntaxNode, i: int) -> Option<SyntaxNode> {
    if 0 <= i < n.children@.len() {
        Some(n.children@[i])
    } else {
        None
    }
}

/// The first node of `nodes` whose kind is `k`.
pub open spec fn first_of_kind(nodes: Seq<SyntaxNode>, k: Seq<char>) -> Option<SyntaxNode>
    decreases nodes.len(),
{
    if nodes.len() == 0 {
        None
    } else if nodes[0].kind@ == k {
        Some(nodes[0])
    } else {
        first_of_kind(nodes.drop_first(), k)
    }
}

/// The child standing under field `f`.
pub fn get_field_child<'a>(n: &'a SyntaxNode, f: &str) -> (r: Option<&'a SyntaxNode>)
    ensures
        r matches Some(c) ==> field_child(*n, f@) == Some(*c),
        r is None ==> field_child(*n, f@) is None,
{
    let mut i: usize = 0;
    assert(n.fields@.skip(0) =~= n.fields@);
    while i < n.fields.len()
        invariant
            0 <= i <= n.fields@.len(),
            first_field(n.fields@, f@) == if first_field(n.fields@.skip(i as int), f@) < 0 {
                -1
            } else {
                i + first_field(n.fields@.skip(i as int), f@)
            },
        decreases n.fields.len() - i,
    {
        assert(n.fields@.skip(i as int).drop_first() =~= n.fields@.skip(i + 1));
        assert(n.fields@.skip(i as int)[0] == n.fields@[i as int]);
        if chars_eq_str(&chars_of(n.fields[i].0.as_str()), f) {
            let idx = n.fields[i].1;
            if idx < n.children.len() {
                return Some(&n.children[idx]);
            } else {
                return None;
            }
        }
        i += 1;
    }
    None
}

/// The `i`-th child.
pub fn get_child<'a>(n: &'a SyntaxNode, i: usize) -> (r: Option<&'a SyntaxNode>)
    ensures
        r matches Some(c) ==> nth_child(*n, i as int) == Some(*c),
        r is None ==> nth_child(*n, i as int) is None,
{
    if i < n.children.len() {
        Some(&n.children[i])
    } else {
        None
    }
}

/// The first node of `nodes` whose kind is `k`.
pub fn find_first_of_kind<'a>(nodes: &'a Vec<SyntaxNode>, k: &str) -> (r: Option<&'a SyntaxNode>)
    ensures
        r matches Some(c) ==> first_of_kind(nodes@, k@) == Some(*c),
        r is None ==> first_of_kind(nodes@, k@) is None,
{
    let mut i: usize = 0;
    assert(nodes@.skip(0) =~= nodes@);
    while i < nodes.len()
        invariant
            0 <= i <= nodes@.len(),
            first_of_kind(nodes@, k@) == first_of_kind(nodes@.skip(i as int), k@),
        decreases nodes.len() - i,
    {
        assert(nodes@.skip(i as int).drop_first() =~= nodes@.skip(i + 1));
        assert(nodes@.skip(i as int)[0] == nodes@[i as int]);
        if chars_eq_str(&chars_of(nodes[i].kind.as_str()), k) {
            return Some(&nodes[i]);
        }
        i += 1;
    }
    None
}

/// Whether the node's kind is `k`.
pub fn kind_is(n: &SyntaxNode, k: &str) -> (r: bool)
    ensures
        r == (n.kind@ == k@),
{
    str_eq(n.kind.as_str(), k)
}

/// The characters a node spans, as a vector.
pub fn text_of(text: &SourceText, n: &SyntaxNode) -> (r: Vec<char>)
    requires
        text.wf(),
    ensures
        r@ == node_text(text@, *n),
{
    let e = char_pos_of(text, n.end);
    let mut s = char_pos_of(text, n.start);
    if s > e {
        s = e;
    }
    slice_chars(&text.chars, s, e)
}

/// The characters a node spans, as a string.
pub fn text_string(text: &SourceText, n: &SyntaxNode) -> (r: String)
    requires
        text.wf(),
    ensures
        r@ == node_text(text@, *n),
{
    let e = char_pos_of(text, n.end);
    let mut s = char_pos_of(text, n.start);
    if s > e {
        s = e;
    }
    string_of_range(&text.chars, s, e)
}

} // verus!
