//! The syntax tree that symbol extraction walks, and the symbols it yields.
//! A parser builds the tree; each node keeps its kind, the field it fills in
//! its parent, the source text it spans, its rows and its children.

use vstd::prelude::*;
use crate::text::{chars_of, lines, lines_v, str_eq, string_of, trim, trim_v};
use crate::types::SymbolKind;

verus! {

/// A node of a concrete syntax tree.
#[derive(Debug)]
pub struct SyntaxNode {
    pub kind: String,
    /// The field of its parent that the node fills, if any.
    pub field: Option<String>,
    /// The source text the node spans.
    pub text: String,
    /// Zero-based first and last rows.
    pub start_row: u32,
    pub end_row: u32,
    pub children: Vec<SyntaxNode>,
}

/// The one-based line number of a zero-based row, as a `u32` that wraps
/// past its largest value.
pub open spec fn row_line(row: u32) -> u32 {
    if row == u32::MAX {
        0
    } else {
        (row + 1) as u32
    }
}

fn row_line_v(row: u32) -> (r: u32)
    ensures
        r == row_line(row),
{
    if row == u32::MAX {
        0
    } else {
        row + 1
    }
}

/// `char::is_uppercase`: the character has the Unicode `Uppercase`
/// property.
pub uninterp spec fn char_is_uppercase(c: char) -> bool;

/// Calls `char::is_uppercase`.
#[verifier::external_body]
pub(crate) fn is_uppercase(c: char) -> (r: bool)
    ensures
        r == char_is_uppercase(c),
{
    c.is_uppercase()
}

/// A symbol found in a source file.
#[derive(Debug)]
pub struct ExtractedSymbol {
    pub name: String,
    pub qualified_name: String,
    pub kind: SymbolKind,
    pub language: String,
    pub signature: Option<String>,
    pub line_start: u32,
    pub line_end: u32,
    pub visibility: Option<String>,
    pub parent_name: Option<String>,
    pub body: Option<String>,
}

pub ghost struct SymbolView {
    pub name: Seq<char>,
    pub qualified_name: Seq<char>,
    pub kind: SymbolKind,
    pub language: Seq<char>,
    pub signature: Option<Seq<char>>,
    pub line_start: u32,
    pub line_end: u32,
    pub visibility: Option<Seq<char>>,
    pub parent_name: Option<Seq<char>>,
    pub body: Option<Seq<char>>,
}

pub open spec fn text_opt(o: Option<String>) -> Option<Seq<char>> {
    match o {
        Some(s) => Some(s@),
        None => None,
    }
}

impl View for ExtractedSymbol {
    type V = SymbolView;

    open spec fn view(&self) -> SymbolView {
        SymbolView {
            name: self.name@,
            qualified_name: self.qualified_name@,
            kind: self.kind,
            language: self.language@,
            signature: text_opt(self.signature),
            line_start: self.line_start,
            line_end: self.line_end,
            visibility: text_opt(self.visibility),
            parent_name: text_opt(self.parent_name),
            body: text_opt(self.body),
        }
    }
}

pub open spec fn symbol_views(v: Seq<ExtractedSymbol>) -> Seq<SymbolView> {
    v.map_values(|s: ExtractedSymbol| s@)
}

/// A symbol spanning `node`'s lines with its text as body.
pub open spec fn node_symbol(
    node: SyntaxNode,
    name: Seq<char>,
    qualified_name: Seq<char>,
    kind: SymbolKind,
    language: Seq<char>,
    signature: Option<Seq<char>>,
    visibility: Option<Seq<char>>,
    parent_name: Option<Seq<char>>,
) -> SymbolView {
    SymbolView {
        name,
        qualified_name,
        kind,
        language,
        signature,
        line_start: row_line(node.start_row),
        line_end: row_line(node.end_row),
        visibility,
        parent_name,
        body: Some(node.text@),
    }
}

pub fn make_symbol(
    node: &SyntaxNode,
    name: String,
    qualified_name: String,
    kind: SymbolKind,
    language: &str,
    signature: Option<String>,
    visibility: Option<String>,
    parent_name: Option<String>,
) -> (r: ExtractedSymbol)
    ensures
        r@ == node_symbol(
            *node,
            name@,
            qualified_name@,
            kind,
            language@,
            text_opt(signature),
            text_opt(visibility),
            text_opt(parent_name),
        ),
{
    ExtractedSymbol {
        name,
        qualified_name,
        kind,
        language: language.to_owned(),
        signature,
        line_start: row_line_v(node.start_row),
        line_end: row_line_v(node.end_row),
        visibility,
        parent_name,
        body: Some(node.text.clone()),
    }
}

/// The first child, from index `i` on, that fills field `name`.
pub open spec fn field_child_from(children: Seq<SyntaxNode>, name: Seq<char>, i: int) -> Option<int>
    decreases children.len() - i,
{
    if i < 0 || i >= children.len() {
        None
    } else if children[i].field matches Some(f) && f@ == name {
        Some(i)
    } else {
        field_child_from(children, name, i + 1)
    }
}

/// `Node::child_by_field_name`: the index of the first child filling `name`.
pub open spec fn field_child(node: SyntaxNode, name: Seq<char>) -> Option<int> {
    field_child_from(node.children@, name, 0)
}

pub proof fn lemma_field_child_from(children: Seq<SyntaxNode>, name: Seq<char>, i: int)
    ensures
        field_child_from(children, name, i) matches Some(j) ==> 0 <= i <= j < children.len(),
    decreases children.len() - i,
{
    if !(i < 0 || i >= children.len()) && !(children[i].field matches Some(f) && f@ == name) {
        lemma_field_child_from(children, name, i + 1);
    }
}

pub fn field_child_v(node: &SyntaxNode, name: &str) -> (r: Option<usize>)
    ensures
        match (r, field_child(*node, name@)) {
            (Some(a), Some(b)) => a == b && b < node.children@.len(),
            (None, None) => true,
            _ => false,
        },
{
    let mut i: usize = 0;
    while i < node.children.len()
        invariant
            i <= node.children@.len(),
            field_child(*node, name@) == field_child_from(node.children@, name@, i as int),
        decreases node.children.len() - i,
    {
        let hit = match &node.children[i].field {
            Some(f) => str_eq(f.as_str(), name),
            None => false,
        };
        if hit {
            return Some(i);
        }
        i = i + 1;
    }
    None
}

/// The first line of `text`, trimmed, when it has a line.
pub open spec fn first_line(text: Seq<char>) -> Option<Seq<char>> {
    if lines(text).len() > 0 {
        Some(trim(lines(text)[0]))
    } else {
        None
    }
}

pub fn first_line_v(text: &str) -> (r: Option<String>)
    ensures
        text_opt(r) == first_line(text@),
{
    let ls = lines_v(&chars_of(text));
    if ls.len() > 0 {
        proof {
            assert(crate::text::views(ls@)[0] == ls@[0]@);
        }
        Some(string_of(&trim_v(&ls[0])))
    } else {
        None
    }
}

/// The parent-qualified name, joined by `sep`.
pub open spec fn qualify(parent: Option<Seq<char>>, name: Seq<char>, sep: Seq<char>) -> Seq<char> {
    match parent {
        Some(p) => p + sep + name,
        None => name,
    }
}

pub fn qualify_v(parent: Option<&str>, name: &str, sep: &str) -> (r: String)
    ensures
        r@ == qualify(
            match parent {
                Some(p) => Some(p@),
                None => None,
            },
            name@,
            sep@,
        ),
{
    match parent {
        Some(p) => {
            let mut s = p.to_owned();
            crate::text::push_text(&mut s, sep);
            crate::text::push_text(&mut s, name);
            s
        },
        None => name.to_owned(),
    }
}

pub open spec fn opt_seq(o: Option<&str>) -> Option<Seq<char>> {
    match o {
        Some(s) => Some(s@),
        None => None,
    }
}

pub fn own_opt(o: Option<&str>) -> (r: Option<String>)
    ensures
        text_opt(r) == opt_seq(o),
{
    match o {
        Some(s) => Some(s.to_owned()),
        None => None,
    }
}

/// Some node of the tree (the node itself or a descendant) has kind `k`.
pub open spec fn tree_has_kind(node: SyntaxNode, k: Seq<char>) -> bool
    decreases node, 1int, 0int,
{
    node.kind@ == k || children_have_kind(node, k, node.children@.len() as int)
}

/// Some node under the first `m` children has kind `k`.
pub open spec fn children_have_kind(node: SyntaxNode, k: Seq<char>, m: int) -> bool
    decreases node, 0int, m,
{
    if m <= 0 || m > node.children@.len() {
        false
    } else {
        proof {
            assert(decreases_to!(node => node.children@[m - 1]));
        }
        children_have_kind(node, k, m - 1) || tree_has_kind(node.children@[m - 1], k)
    }
}

/// A kind found among the first `a` children is found among the first `b`.
pub proof fn lemma_children_have_kind_mono(node: SyntaxNode, k: Seq<char>, a: int, b: int)
    requires
        0 <= a <= b <= node.children@.len(),
    ensures
        children_have_kind(node, k, a) ==> children_have_kind(node, k, b),
    decreases b - a,
{
    if a < b {
        lemma_children_have_kind_mono(node, k, a, b - 1);
    }
}

} // verus!
