//! Go symbol extraction, and import extraction from single and grouped
//! `import` declarations.

use vstd::prelude::*;
use crate::imports::{RawImport, ImportSpec, import_spec, import_views, line_no, make_import};
use crate::languages::syntax::{
    char_is_uppercase, field_child, field_child_v, first_line, first_line_v, is_uppercase,
    make_symbol, node_symbol, symbol_views, text_opt, ExtractedSymbol,
    SymbolView, SyntaxNode,
};
use crate::types::SymbolKind;
use crate::text::{
    after_last, after_last_v, chars_of, eq_v, find, find_v, lemma_find_bounds, lines, lines_v,
    slice_of, split_once, split_once_v, starts_with, starts_with_v, trim, trim_start_matches,
    trim_start_matches_v, trim_v, views,
};

verus! {

/// The text between the first pair of double quotes.
pub open spec fn go_path(fragment: Seq<char>) -> Option<Seq<char>> {
    match find(fragment, seq!['"']) {
        None => None,
        Some(start) => {
            let rest = fragment.skip(start + 1);
            match find(rest, seq!['"']) {
                None => None,
                Some(end) => Some(rest.take(end)),
            }
        },
    }
}

/// The alias a Go import binds explicitly; `_`, `.` and the empty alias bind
/// none.
pub open spec fn go_alias(alias: Seq<char>) -> Option<Seq<char>> {
    if alias == "_"@ || alias == "."@ || alias.len() == 0 {
        None
    } else {
        Some(alias)
    }
}

/// One import spec line, `"pkg/path"` or `alias "pkg/path"`.
pub open spec fn go_import_line(line: Seq<char>) -> Option<(Seq<char>, Option<Seq<char>>)> {
    let t = trim(line);
    if t.len() == 0 {
        None
    } else {
        match split_once(t, seq![' ']) {
            Some((alias, rest)) => match go_path(trim(rest)) {
                None => None,
                Some(tp) => Some((tp, go_alias(trim(alias)))),
            },
            None => match go_path(t) {
                Some(tp) => Some((tp, None)),
                None => None,
            },
        }
    }
}

/// The record for a parsed import line (none when the line does not parse).
pub open spec fn go_emit(
    path: Seq<char>,
    parsed: Option<(Seq<char>, Option<Seq<char>>)>,
    idx: int,
) -> Seq<ImportSpec> {
    match parsed {
        Some((tp, alias)) => seq![
            import_spec(
                path,
                tp,
                match alias {
                    Some(a) => a,
                    None => after_last(tp, seq!['/']),
                },
                line_no(idx),
            ),
        ],
        None => Seq::empty(),
    }
}

/// Imports found in lines `idx..` given whether an `import (` group is open.
pub open spec fn go_imports_from(
    ls: Seq<Seq<char>>,
    path: Seq<char>,
    idx: int,
    in_group: bool,
) -> Seq<ImportSpec>
    decreases ls.len() - idx,
{
    if idx < 0 || idx >= ls.len() {
        Seq::empty()
    } else {
        let t = trim(ls[idx]);
        if starts_with(t, "import ("@) {
            go_imports_from(ls, path, idx + 1, true)
        } else if in_group {
            if t == ")"@ {
                go_imports_from(ls, path, idx + 1, false)
            } else {
                go_emit(path, go_import_line(t), idx) + go_imports_from(ls, path, idx + 1, true)
            }
        } else if starts_with(t, "import "@) {
            go_emit(path, go_import_line(trim(trim_start_matches(t, "import "@))), idx)
                + go_imports_from(ls, path, idx + 1, false)
        } else {
            go_imports_from(ls, path, idx + 1, false)
        }
    }
}

/// All imports of a Go source file.
pub open spec fn go_imports(source: Seq<char>, path: Seq<char>) -> Seq<ImportSpec> {
    go_imports_from(lines(source), path, 0, false)
}

fn go_path_v(fragment: &Vec<char>) -> (r: Option<Vec<char>>)
    ensures
        r matches Some(x) ==> go_path(fragment@) == Some(x@),
        r is None ==> go_path(fragment@) is None,
{
    let quote: Vec<char> = vec!['"'];
    assert(quote@ =~= seq!['"']);
    proof {
        lemma_find_bounds(fragment@, quote@);
    }
    match find_v(fragment, &quote) {
        None => None,
        Some(start) => {
            assert(start + quote@.len() <= fragment@.len());
            assert(quote@.len() == 1);
            assert(start < fragment.len());
            let rest = slice_of(fragment, start + 1, fragment.len());
            assert(rest@ =~= fragment@.skip(start + 1));
            proof {
                lemma_find_bounds(rest@, quote@);
            }
            match find_v(&rest, &quote) {
                None => None,
                Some(end) => {
                    let r = slice_of(&rest, 0, end);
                    assert(r@ =~= rest@.take(end as int));
                    Some(r)
                },
            }
        },
    }
}

fn go_import_line_v(line: &Vec<char>) -> (r: Option<(Vec<char>, Option<Vec<char>>)>)
    ensures
        r matches Some((tp, alias)) ==> go_import_line(line@) == Some((tp@, match alias {
            Some(a) => Some(a@),
            None => None::<Seq<char>>,
        })),
        r is None ==> go_import_line(line@) is None,
{
    let t = trim_v(line);
    if t.len() == 0 {
        return None;
    }
    let space: Vec<char> = vec![' '];
    assert(space@ =~= seq![' ']);
    match split_once_v(&t, &space) {
        Some((alias, rest)) => {
            let rest_t = trim_v(&rest);
            match go_path_v(&rest_t) {
                None => None,
                Some(tp) => {
                    let a = trim_v(&alias);
                    let underscore = chars_of("_");
                    let dot = chars_of(".");
                    if eq_v(&a, &underscore) || eq_v(&a, &dot) || a.len() == 0 {
                        Some((tp, None))
                    } else {
                        Some((tp, Some(a)))
                    }
                },
            }
        },
        None => match go_path_v(&t) {
            Some(tp) => Some((tp, None)),
            None => None,
        },
    }
}

fn go_emit_v(
    out: &mut Vec<RawImport>,
    path: &Vec<char>,
    parsed: Option<(Vec<char>, Option<Vec<char>>)>,
    idx: usize,
)
    requires
        idx < usize::MAX,
    ensures
        import_views(final(out)@) == import_views(old(out)@) + go_emit(
            path@,
            match parsed {
                Some((tp, alias)) => Some((tp@, match alias {
                    Some(a) => Some(a@),
                    None => None::<Seq<char>>,
                })),
                None => None,
            },
            idx as int,
        ),
{
    match parsed {
        Some((tp, alias)) => {
            let name = match alias {
                Some(a) => a,
                None => {
                    let slash: Vec<char> = vec!['/'];
                    assert(slash@ =~= seq!['/']);
                    after_last_v(&tp, &slash)
                },
            };
            let line: u32 = (idx + 1) as u32;
            let rec = make_import(path, &tp, &name, line);
            let ghost before = import_views(out@);
            out.push(rec);
            assert(import_views(out@) =~= before.push(rec@));
        },
        None => {
            assert(import_views(out@) =~= import_views(out@) + Seq::<ImportSpec>::empty());
        },
    }
}

/// Extract Go imports from single and grouped import declarations.
pub fn extract_imports(source: &str, source_path: &str) -> (r: Vec<RawImport>)
    ensures
        import_views(r@) == go_imports(source@, source_path@),
{
    let src = chars_of(source);
    let path = chars_of(source_path);
    let ls = lines_v(&src);
    let group_open = chars_of("import (");
    let close = chars_of(")");
    let import_kw = chars_of("import ");
    proof {
        reveal_strlit("import ");
    }
    let mut out: Vec<RawImport> = Vec::new();
    let mut in_group = false;
    let mut idx: usize = 0;
    while idx < ls.len()
        invariant
            idx <= ls.len(),
            views(ls@) == lines(src@),
            src@ == source@,
            path@ == source_path@,
            group_open@ == "import ("@,
            close@ == ")"@,
            import_kw@ == "import "@,
            import_kw@.len() > 0,
            import_views(out@) + go_imports_from(views(ls@), path@, idx as int, in_group)
                == go_imports(source@, source_path@),
        decreases ls.len() - idx,
    {
        let t = trim_v(&ls[idx]);
        assert(views(ls@)[idx as int] == ls@[idx as int]@);
        let ghost before = import_views(out@);
        if starts_with_v(&t, &group_open) {
            in_group = true;
        } else if in_group {
            if eq_v(&t, &close) {
                in_group = false;
            } else {
                let parsed = go_import_line_v(&t);
                go_emit_v(&mut out, &path, parsed, idx);
                assert(before + go_imports_from(views(ls@), path@, idx as int, true) =~= import_views(
                    out@,
                ) + go_imports_from(views(ls@), path@, idx + 1, true));
            }
        } else if starts_with_v(&t, &import_kw) {
            let stripped = trim_start_matches_v(&t, &import_kw);
            let rest = trim_v(&stripped);
            let parsed = go_import_line_v(&rest);
            go_emit_v(&mut out, &path, parsed, idx);
            assert(before + go_imports_from(views(ls@), path@, idx as int, false) =~= import_views(
                out@,
            ) + go_imports_from(views(ls@), path@, idx + 1, false));
        }
        idx = idx + 1;
    }
    assert(import_views(out@) + go_imports_from(views(ls@), path@, idx as int, in_group)
        =~= import_views(out@));
    out
}


// ---------------------------------------------------------------------------
// Symbols
// ---------------------------------------------------------------------------

/// Exported names start with an upper-case letter.
pub open spec fn go_visibility(name: Seq<char>) -> Seq<char> {
    if name.len() > 0 && char_is_uppercase(name[0]) {
        "public"@
    } else {
        "private"@
    }
}

fn go_visibility_v(name: &str) -> (r: String)
    ensures
        r@ == go_visibility(name@),
{
    let cs = chars_of(name);
    if cs.len() > 0 && is_uppercase(cs[0]) {
        "public".to_owned()
    } else {
        "private".to_owned()
    }
}

pub open spec fn opt_list(o: Option<SymbolView>) -> Seq<SymbolView> {
    match o {
        Some(s) => seq![s],
        None => Seq::empty(),
    }
}

/// A function declaration; none without a name or a first line.
pub open spec fn go_function(node: SyntaxNode) -> Option<SymbolView> {
    match (field_child(node, "name"@), first_line(node.text@)) {
        (Some(i), Some(sig)) => {
            let name = node.children@[i].text@;
            Some(
                node_symbol(
                    node,
                    name,
                    name,
                    SymbolKind::Function,
                    "go"@,
                    Some(sig),
                    Some(go_visibility(name)),
                    None,
                ),
            )
        },
        _ => None,
    }
}

/// The receiver type of a method: the `type` of the receiver's first
/// parameter declaration, without `*`.
pub open spec fn go_receiver_from(cs: Seq<SyntaxNode>, i: int) -> Option<Seq<char>>
    decreases cs.len() - i,
{
    if i < 0 || i >= cs.len() {
        None
    } else if cs[i].kind@ == "parameter_declaration"@ {
        match field_child(cs[i], "type"@) {
            Some(t) => Some(crate::text::replace(cs[i].children@[t].text@, "*"@, Seq::empty())),
            None => None,
        }
    } else {
        go_receiver_from(cs, i + 1)
    }
}

pub open spec fn go_receiver(node: SyntaxNode) -> Option<Seq<char>> {
    match field_child(node, "receiver"@) {
        Some(r) => go_receiver_from(node.children@[r].children@, 0),
        None => None,
    }
}

/// A method declaration, qualified by its receiver type.
pub open spec fn go_method(node: SyntaxNode) -> Option<SymbolView> {
    match (field_child(node, "name"@), first_line(node.text@)) {
        (Some(i), Some(sig)) => {
            let name = node.children@[i].text@;
            let receiver = go_receiver(node);
            Some(
                node_symbol(
                    node,
                    name,
                    match receiver {
                        Some(r) => r + "."@ + name,
                        None => name,
                    },
                    SymbolKind::Method,
                    "go"@,
                    Some(sig),
                    Some(go_visibility(name)),
                    receiver,
                ),
            )
        },
        _ => None,
    }
}

/// A type spec: a struct, an interface, or an alias of another type.
pub open spec fn go_type_spec(node: SyntaxNode) -> Option<SymbolView> {
    match (field_child(node, "name"@), field_child(node, "type"@)) {
        (Some(i), Some(t)) => {
            let name = node.children@[i].text@;
            let tk = node.children@[t].kind@;
            let kind = if tk == "struct_type"@ {
                SymbolKind::Struct
            } else if tk == "interface_type"@ {
                SymbolKind::Interface
            } else {
                SymbolKind::TypeAlias
            };
            Some(node_symbol(node, name, name, kind, "go"@, None, Some(go_visibility(name)), None))
        },
        _ => None,
    }
}

/// The type specs among the first `k` children of a type declaration.
pub open spec fn go_type_specs(node: SyntaxNode, k: int) -> Seq<SymbolView>
    decreases k,
{
    if k <= 0 || k > node.children@.len() {
        Seq::empty()
    } else {
        let c = node.children@[k - 1];
        go_type_specs(node, k - 1) + if c.kind@ == "type_spec"@ {
            opt_list(go_type_spec(c))
        } else {
            Seq::empty()
        }
    }
}

/// The named constant or variable specs among the first `k` children of a
/// declaration, each a symbol of `kind`.
pub open spec fn go_value_specs(node: SyntaxNode, k: int, kind: SymbolKind) -> Seq<SymbolView>
    decreases k,
{
    if k <= 0 || k > node.children@.len() {
        Seq::empty()
    } else {
        let c = node.children@[k - 1];
        go_value_specs(node, k - 1, kind) + if c.kind@ == "const_spec"@ || c.kind@ == "var_spec"@ {
            match field_child(c, "name"@) {
                Some(i) => {
                    let name = c.children@[i].text@;
                    seq![node_symbol(c, name, name, kind, "go"@, None, Some(go_visibility(name)), None)]
                },
                None => Seq::empty(),
            }
        } else {
            Seq::empty()
        }
    }
}

/// The symbols a node itself declares.
pub open spec fn go_own(node: SyntaxNode) -> Seq<SymbolView> {
    let k = node.kind@;
    let n = node.children@.len() as int;
    if k == "function_declaration"@ {
        opt_list(go_function(node))
    } else if k == "method_declaration"@ {
        opt_list(go_method(node))
    } else if k == "type_declaration"@ {
        go_type_specs(node, n)
    } else if k == "const_declaration"@ {
        go_value_specs(node, n, SymbolKind::Constant)
    } else if k == "var_declaration"@ {
        go_value_specs(node, n, SymbolKind::Variable)
    } else {
        Seq::empty()
    }
}

/// The symbols of a Go syntax tree, in document order: functions, methods
/// (qualified by receiver type), struct, interface and alias types,
/// constants and variables.
pub open spec fn go_walk(node: SyntaxNode) -> Seq<SymbolView>
    decreases node, 1int, 0int,
{
    go_own(node) + go_children(node, node.children@.len() as int)
}

pub open spec fn go_children(node: SyntaxNode, k: int) -> Seq<SymbolView>
    decreases node, 0int, k,
{
    if k <= 0 || k > node.children@.len() {
        Seq::empty()
    } else {
        proof {
            assert(decreases_to!(node => node.children@[k - 1]));
        }
        go_children(node, k - 1) + go_walk(node.children@[k - 1])
    }
}

fn push_opt(out: &mut Vec<ExtractedSymbol>, s: Option<ExtractedSymbol>)
    ensures
        symbol_views(final(out)@) == symbol_views(old(out)@) + match s {
            Some(x) => seq![x@],
            None => Seq::<SymbolView>::empty(),
        },
{
    let ghost before = symbol_views(out@);
    match s {
        Some(x) => {
            out.push(x);
            assert(symbol_views(out@) =~= before + seq![x@]);
        },
        None => {
            assert(symbol_views(out@) =~= before + Seq::<SymbolView>::empty());
        },
    }
}

fn go_function_v(node: &SyntaxNode) -> (r: Option<ExtractedSymbol>)
    ensures
        match (r, go_function(*node)) {
            (Some(a), Some(b)) => a@ == b,
            (None, None) => true,
            _ => false,
        },
{
    let i = match field_child_v(node, "name") {
        Some(i) => i,
        None => {
            return None;
        },
    };
    let sig = match first_line_v(node.text.as_str()) {
        Some(l) => l,
        None => {
            return None;
        },
    };
    let name = node.children[i].text.clone();
    let vis = go_visibility_v(name.as_str());
    Some(
        make_symbol(node, name.clone(), name, SymbolKind::Function, "go", Some(sig), Some(vis), None),
    )
}

fn go_receiver_v(node: &SyntaxNode) -> (r: Option<String>)
    ensures
        text_opt(r) == go_receiver(*node),
{
    let ri = match field_child_v(node, "receiver") {
        Some(ri) => ri,
        None => {
            return None;
        },
    };
    let recv = &node.children[ri];
    let mut i: usize = 0;
    while i < recv.children.len()
        invariant
            i <= recv.children@.len(),
            go_receiver(*node) == go_receiver_from(recv.children@, i as int),
        decreases recv.children.len() - i,
    {
        let c = &recv.children[i];
        if crate::text::str_eq(c.kind.as_str(), "parameter_declaration") {
            return match field_child_v(c, "type") {
                Some(t) => {
                    let star = chars_of("*");
                    proof {
                        reveal_strlit("*");
                    }
                    let stripped = crate::text::replace_v(
                        &chars_of(c.children[t].text.as_str()),
                        &star,
                        &Vec::new(),
                    );
                    Some(crate::text::string_of(&stripped))
                },
                None => None,
            };
        }
        i = i + 1;
    }
    None
}

fn go_method_v(node: &SyntaxNode) -> (r: Option<ExtractedSymbol>)
    ensures
        match (r, go_method(*node)) {
            (Some(a), Some(b)) => a@ == b,
            (None, None) => true,
            _ => false,
        },
{
    let i = match field_child_v(node, "name") {
        Some(i) => i,
        None => {
            return None;
        },
    };
    let sig = match first_line_v(node.text.as_str()) {
        Some(l) => l,
        None => {
            return None;
        },
    };
    let name = node.children[i].text.clone();
    let receiver = go_receiver_v(node);
    let qualified = match &receiver {
        Some(r) => {
            let mut q = r.clone();
            crate::text::push_text(&mut q, ".");
            crate::text::push_text(&mut q, name.as_str());
            q
        },
        None => name.clone(),
    };
    let vis = go_visibility_v(name.as_str());
    Some(make_symbol(node, name, qualified, SymbolKind::Method, "go", Some(sig), Some(vis), receiver))
}

fn go_type_spec_v(node: &SyntaxNode) -> (r: Option<ExtractedSymbol>)
    ensures
        match (r, go_type_spec(*node)) {
            (Some(a), Some(b)) => a@ == b,
            (None, None) => true,
            _ => false,
        },
{
    let i = match field_child_v(node, "name") {
        Some(i) => i,
        None => {
            return None;
        },
    };
    let t = match field_child_v(node, "type") {
        Some(t) => t,
        None => {
            return None;
        },
    };
    let name = node.children[i].text.clone();
    let tk = node.children[t].kind.as_str();
    let kind = if crate::text::str_eq(tk, "struct_type") {
        SymbolKind::Struct
    } else if crate::text::str_eq(tk, "interface_type") {
        SymbolKind::Interface
    } else {
        SymbolKind::TypeAlias
    };
    let vis = go_visibility_v(name.as_str());
    Some(make_symbol(node, name.clone(), name, kind, "go", None, Some(vis), None))
}

fn go_own_v(node: &SyntaxNode, out: &mut Vec<ExtractedSymbol>)
    ensures
        symbol_views(final(out)@) == symbol_views(old(out)@) + go_own(*node),
{
    let ghost before = symbol_views(out@);
    let k = node.kind.as_str();
    if crate::text::str_eq(k, "function_declaration") {
        let s = go_function_v(node);
        push_opt(out, s);
    } else if crate::text::str_eq(k, "method_declaration") {
        let s = go_method_v(node);
        push_opt(out, s);
    } else if crate::text::str_eq(k, "type_declaration") {
        let mut i: usize = 0;
        while i < node.children.len()
            invariant
                i <= node.children@.len(),
                symbol_views(out@) == before + go_type_specs(*node, i as int),
            decreases node.children.len() - i,
        {
            let c = &node.children[i];
            if crate::text::str_eq(c.kind.as_str(), "type_spec") {
                let s = go_type_spec_v(c);
                push_opt(out, s);
            }
            assert(symbol_views(out@) =~= before + go_type_specs(*node, i + 1));
            i = i + 1;
        }
        assert(symbol_views(out@) =~= before + go_own(*node));
    } else if crate::text::str_eq(k, "const_declaration") || crate::text::str_eq(
        k,
        "var_declaration",
    ) {
        let kind = if crate::text::str_eq(k, "const_declaration") {
            SymbolKind::Constant
        } else {
            SymbolKind::Variable
        };
        let mut i: usize = 0;
        while i < node.children.len()
            invariant
                i <= node.children@.len(),
                symbol_views(out@) == before + go_value_specs(*node, i as int, kind),
            decreases node.children.len() - i,
        {
            let c = &node.children[i];
            if crate::text::str_eq(c.kind.as_str(), "const_spec") || crate::text::str_eq(
                c.kind.as_str(),
                "var_spec",
            ) {
                match field_child_v(c, "name") {
                    Some(ni) => {
                        let name = c.children[ni].text.clone();
                        let vis = go_visibility_v(name.as_str());
                        let s = make_symbol(c, name.clone(), name, kind, "go", None, Some(vis), None);
                        push_opt(out, Some(s));
                    },
                    None => {},
                }
            }
            assert(symbol_views(out@) =~= before + go_value_specs(*node, i + 1, kind));
            i = i + 1;
        }
        assert(symbol_views(out@) =~= before + go_own(*node));
    } else {
        assert(symbol_views(out@) =~= before + go_own(*node));
    }
}

fn go_walk_v(node: &SyntaxNode, out: &mut Vec<ExtractedSymbol>)
    ensures
        symbol_views(final(out)@) == symbol_views(old(out)@) + go_walk(*node),
    decreases *node,
{
    let ghost before = symbol_views(out@);
    go_own_v(node, out);
    let ghost mid = symbol_views(out@);
    let mut i: usize = 0;
    while i < node.children.len()
        invariant
            i <= node.children@.len(),
            mid == before + go_own(*node),
            symbol_views(out@) == mid + go_children(*node, i as int),
        decreases node.children.len() - i,
    {
        assert(decreases_to!(*node => node.children@[i as int]));
        go_walk_v(&node.children[i], out);
        assert(symbol_views(out@) =~= mid + go_children(*node, i + 1));
        i = i + 1;
    }
    assert(symbol_views(out@) =~= before + go_walk(*node));
}

/// Extract the symbols of a Go syntax tree.
pub fn extract(root: &SyntaxNode) -> (r: Vec<ExtractedSymbol>)
    ensures
        symbol_views(r@) == go_walk(*root),
{
    let mut out: Vec<ExtractedSymbol> = Vec::new();
    go_walk_v(root, &mut out);
    assert(symbol_views(out@) =~= Seq::<SymbolView>::empty() + go_walk(*root));
    out
}

} // verus!
