//! Python symbol extraction, and import extraction including multi-line
//! parenthesized forms.

use vstd::prelude::*;
use crate::paths::{named_components, named_segments_from, named_segments_v};
use crate::imports::{RawImport, ImportSpec, import_spec, import_views, make_import};
use crate::languages::syntax::{
    field_child, field_child_v, first_line, first_line_v, make_symbol,
    node_symbol, opt_seq, own_opt, qualify, qualify_v, symbol_views, ExtractedSymbol,
    SymbolView, SyntaxNode,
};
use crate::types::SymbolKind;
use crate::text::{
    after_last, after_last_v, before_first, before_first_v, chars_of, concat, eq_v, find, find_v,
    join, join_v, lemma_find_bounds, lines, lines_v, replace, replace_v, slice_of, split,
    split_once, split_once_v, split_v, starts_with, starts_with_v, trim, trim_start_matches,
    trim_start_matches_v, trim_v, views,
};

verus! {

// ---------------------------------------------------------------------------
// Relative module resolution
// ---------------------------------------------------------------------------

/// The components of the directory that contains `p` (`Path::parent`).
pub open spec fn parent_components(p: Seq<char>) -> Seq<Seq<char>> {
    let c = named_components(p);
    if c.len() == 0 {
        c
    } else {
        c.drop_last()
    }
}

pub open spec fn saturating_sub(a: int, b: int) -> int {
    if a >= b {
        a - b
    } else {
        0
    }
}

/// The dotted module a (possibly relative) `from` clause names, seen from the
/// file at `source_path`: each leading dot past the first climbs one
/// directory.
pub open spec fn resolve_python_module_spec(source_path: Seq<char>, module: Seq<char>) -> Seq<
    char,
> {
    if !starts_with(module, "."@) {
        module
    } else {
        let parts = parent_components(source_path);
        let suffix = trim_start_matches(module, "."@);
        let dot_count = module.len() - suffix.len();
        let keep = saturating_sub(parts.len() as int, saturating_sub(dot_count, 1));
        let base = parts.take(keep);
        let all = if suffix.len() > 0 {
            base.push(suffix)
        } else {
            base
        };
        join(all, "."@)
    }
}

// ---------------------------------------------------------------------------
// Statement parsing
// ---------------------------------------------------------------------------

/// One comma-separated item of `import a.b as c, d`.
pub open spec fn import_item(part: Seq<char>, path: Seq<char>, line: int) -> Seq<ImportSpec> {
    let m = trim(part);
    if m.len() == 0 {
        Seq::empty()
    } else {
        let target = trim(before_first(m, " as "@));
        if target.len() == 0 {
            Seq::empty()
        } else {
            seq![import_spec(path, target, after_last(target, "."@), line as u32)]
        }
    }
}

pub open spec fn import_items_from(
    parts: Seq<Seq<char>>,
    path: Seq<char>,
    line: int,
    k: int,
) -> Seq<ImportSpec>
    decreases parts.len() - k,
{
    if k < 0 || k >= parts.len() {
        Seq::empty()
    } else {
        import_item(parts[k], path, line) + import_items_from(parts, path, line, k + 1)
    }
}

/// `import a, b.c as d`.
pub open spec fn import_stmt(statement: Seq<char>, path: Seq<char>, line: int) -> Seq<
    ImportSpec,
> {
    import_items_from(split(trim_start_matches(statement, "import "@), ","@), path, line, 0)
}

/// The qualified target of `from <resolved> import <name>`.
pub open spec fn from_target(resolved: Seq<char>, name: Seq<char>) -> Seq<char> {
    if name == "*"@ {
        resolved
    } else if resolved.len() == 0 {
        name
    } else {
        resolved + "."@ + name
    }
}

/// One comma-separated item of `from m import a as b, c`.
pub open spec fn from_item(
    part: Seq<char>,
    resolved: Seq<char>,
    path: Seq<char>,
    line: int,
) -> Seq<ImportSpec> {
    let imported = trim(part);
    if imported.len() == 0 {
        Seq::empty()
    } else {
        let name = trim(before_first(imported, " as "@));
        if name.len() == 0 {
            Seq::empty()
        } else {
            seq![import_spec(path, from_target(resolved, name), name, line as u32)]
        }
    }
}

pub open spec fn from_items_from(
    parts: Seq<Seq<char>>,
    resolved: Seq<char>,
    path: Seq<char>,
    line: int,
    k: int,
) -> Seq<ImportSpec>
    decreases parts.len() - k,
{
    if k < 0 || k >= parts.len() {
        Seq::empty()
    } else {
        from_item(parts[k], resolved, path, line) + from_items_from(
            parts,
            resolved,
            path,
            line,
            k + 1,
        )
    }
}

/// `from m import a, b as c`.
pub open spec fn from_import_stmt(statement: Seq<char>, path: Seq<char>, line: int) -> Seq<
    ImportSpec,
> {
    let body = trim(trim_start_matches(statement, "from "@));
    match split_once(body, " import "@) {
        None => Seq::empty(),
        Some((module_raw, imports_raw)) => from_items_from(
            split(imports_raw, ","@),
            resolve_python_module_spec(path, trim(module_raw)),
            path,
            line,
            0,
        ),
    }
}

// ---------------------------------------------------------------------------
// File scan
// ---------------------------------------------------------------------------

/// Text accumulated for a parenthesized statement after appending `content`.
pub open spec fn buffer_append(buffer: Seq<char>, content: Seq<char>) -> Seq<char> {
    (if buffer.len() > 0 {
        buffer.push(' ')
    } else {
        buffer
    }) + content
}

/// Imports of a complete (joined) statement.
pub open spec fn statement_imports(joined: Seq<char>, path: Seq<char>, line: int) -> Seq<
    ImportSpec,
> {
    if starts_with(joined, "from "@) {
        from_import_stmt(joined, path, line)
    } else if starts_with(joined, "import "@) {
        import_stmt(joined, path, line)
    } else {
        Seq::empty()
    }
}

/// A line that opens a parenthesized multi-line import.
pub open spec fn opens_paren(t: Seq<char>) -> bool {
    (starts_with(t, "from "@) || starts_with(t, "import "@)) && t.contains('(') && !t.contains(
        ')',
    )
}

/// Imports found in lines `idx..`, given the scan state: the buffered
/// statement text, the line it started on and whether a parenthesis is open.
pub open spec fn py_imports_from(
    ls: Seq<Seq<char>>,
    path: Seq<char>,
    idx: int,
    buffer: Seq<char>,
    start_line: int,
    in_paren: bool,
) -> Seq<ImportSpec>
    decreases ls.len() - idx,
{
    if idx < 0 || idx >= ls.len() {
        Seq::empty()
    } else {
        let t = trim(ls[idx]);
        if in_paren {
            match find(t, ")"@) {
                Some(pos) => {
                    let buf = buffer_append(buffer, t.take(pos));
                    statement_imports(trim(buf), path, start_line) + py_imports_from(
                        ls,
                        path,
                        idx + 1,
                        Seq::empty(),
                        start_line,
                        false,
                    )
                },
                None => py_imports_from(
                    ls,
                    path,
                    idx + 1,
                    buffer_append(buffer, t),
                    start_line,
                    true,
                ),
            }
        } else if opens_paren(t) {
            py_imports_from(ls, path, idx + 1, trim(replace(t, "("@, Seq::empty())), idx + 1, true)
        } else if starts_with(t, "import "@) {
            import_stmt(t, path, idx + 1) + py_imports_from(
                ls,
                path,
                idx + 1,
                buffer,
                start_line,
                false,
            )
        } else if starts_with(t, "from "@) {
            from_import_stmt(t, path, idx + 1) + py_imports_from(
                ls,
                path,
                idx + 1,
                buffer,
                start_line,
                false,
            )
        } else {
            py_imports_from(ls, path, idx + 1, buffer, start_line, false)
        }
    }
}

/// All imports of a Python source file.
pub open spec fn py_imports(source: Seq<char>, path: Seq<char>) -> Seq<ImportSpec> {
    py_imports_from(lines(source), path, 0, Seq::empty(), 0, false)
}

// ---------------------------------------------------------------------------
// Executable code
// ---------------------------------------------------------------------------

fn parent_components_v(p: &Vec<char>) -> (r: Vec<Vec<char>>)
    ensures
        views(r@) == parent_components(p@),
{
    let slash = chars_of("/");
    proof {
        reveal_strlit("/");
    }
    let segs = split_v(p, &slash);
    let named = named_segments_v(&segs);
    assert(views(named@) == named_segments_from(split(p@, "/"@), 0));
    let mut comps: Vec<Vec<char>> = Vec::new();
    if starts_with_v(p, &slash) {
        comps.push(slash.clone());
    }
    let mut k: usize = 0;
    while k < named.len()
        invariant
            k <= named.len(),
            views(comps@) == (if starts_with(p@, "/"@) {
                seq!["/"@]
            } else {
                Seq::<Seq<char>>::empty()
            }) + views(named@).take(k as int),
        decreases named.len() - k,
    {
        let ghost before = views(comps@);
        comps.push(named[k].clone());
        assert(views(comps@) =~= before.push(named@[k as int]@));
        assert(views(named@).take(k + 1) =~= views(named@).take(k as int).push(
            named@[k as int]@,
        ));
        k = k + 1;
    }
    assert(views(named@).take(named.len() as int) =~= views(named@));
    assert(views(comps@) == named_components(p@));
    if comps.len() > 0 {
        let ghost before = views(comps@);
        comps.pop();
        assert(views(comps@) =~= before.drop_last());
    }
    comps
}

/// The dotted module a (possibly relative) `from` clause names.
pub fn resolve_python_module(source_path: &str, module: &str) -> (r: String)
    ensures
        r@ == resolve_python_module_spec(source_path@, module@),
{
    let m = chars_of(module);
    let p = chars_of(source_path);
    let dot = chars_of(".");
    proof {
        reveal_strlit(".");
    }
    if !starts_with_v(&m, &dot) {
        return string_of_v(&m);
    }
    let parts = parent_components_v(&p);
    let suffix = trim_start_matches_v(&m, &dot);
    proof {
        crate::text::lemma_trim_start_matches_len(m@, dot@);
    }
    let dot_count: usize = m.len() - suffix.len();
    let climb: usize = if dot_count >= 1 {
        dot_count - 1
    } else {
        0
    };
    let keep: usize = if parts.len() >= climb {
        parts.len() - climb
    } else {
        0
    };
    let mut base: Vec<Vec<char>> = Vec::new();
    let mut k: usize = 0;
    while k < keep
        invariant
            keep <= parts.len(),
            k <= keep,
            views(base@) == views(parts@).take(k as int),
        decreases keep - k,
    {
        let ghost before = views(base@);
        base.push(parts[k].clone());
        assert(views(base@) =~= before.push(parts@[k as int]@));
        assert(views(base@) =~= views(parts@).take(k + 1));
        k = k + 1;
    }
    if suffix.len() > 0 {
        let ghost before = views(base@);
        base.push(suffix);
        assert(views(base@) =~= before.push(suffix@));
    }
    let joined = join_v(&base, &dot);
    string_of_v(&joined)
}

fn string_of_v(v: &Vec<char>) -> (s: String)
    ensures
        s@ == v@,
{
    crate::text::string_of(v)
}

fn import_stmt_v(out: &mut Vec<RawImport>, statement: &Vec<char>, path: &Vec<char>, line: usize)
    ensures
        import_views(final(out)@) == import_views(old(out)@) + import_stmt(
            statement@,
            path@,
            line as int,
        ),
{
    let kw = chars_of("import ");
    let comma = chars_of(",");
    let as_kw = chars_of(" as ");
    let dot = chars_of(".");
    proof {
        reveal_strlit("import ");
        reveal_strlit(",");
    }
    let body = trim_start_matches_v(statement, &kw);
    let parts = split_v(&body, &comma);
    let ghost start = import_views(out@);
    let mut k: usize = 0;
    while k < parts.len()
        invariant
            k <= parts.len(),
            as_kw@ == " as "@,
            dot@ == "."@,
            views(parts@) == split(trim_start_matches(statement@, "import "@), ","@),
            import_views(out@) + import_items_from(views(parts@), path@, line as int, k as int)
                == start + import_stmt(statement@, path@, line as int),
        decreases parts.len() - k,
    {
        assert(views(parts@)[k as int] == parts@[k as int]@);
        let ghost before = import_views(out@);
        let m = trim_v(&parts[k]);
        if m.len() > 0 {
            let head = before_first_v(&m, &as_kw);
            let target = trim_v(&head);
            if target.len() > 0 {
                let name = after_last_v(&target, &dot);
                let rec = make_import(path, &target, &name, line as u32);
                out.push(rec);
                assert(import_views(out@) =~= before.push(rec@));
            }
        }
        assert(before + import_items_from(views(parts@), path@, line as int, k as int)
            =~= import_views(out@) + import_items_from(views(parts@), path@, line as int, k + 1));
        k = k + 1;
    }
    assert(import_views(out@) + import_items_from(views(parts@), path@, line as int, k as int)
        =~= import_views(out@));
}

fn from_import_stmt_v(
    out: &mut Vec<RawImport>,
    statement: &Vec<char>,
    path: &Vec<char>,
    line: usize,
)
    ensures
        import_views(final(out)@) == import_views(old(out)@) + from_import_stmt(
            statement@,
            path@,
            line as int,
        ),
{
    let kw = chars_of("from ");
    let sep = chars_of(" import ");
    let comma = chars_of(",");
    let as_kw = chars_of(" as ");
    let star = chars_of("*");
    let dot = chars_of(".");
    proof {
        reveal_strlit("from ");
        reveal_strlit(",");
    }
    let stripped = trim_start_matches_v(statement, &kw);
    let body = trim_v(&stripped);
    match split_once_v(&body, &sep) {
        None => {
            assert(import_views(out@) =~= import_views(out@) + Seq::<ImportSpec>::empty());
        },
        Some((module_raw, imports_raw)) => {
            let module_t = trim_v(&module_raw);
            let module_s = string_of_v(&module_t);
            let path_s = string_of_v(path);
            let resolved_s = resolve_python_module(path_s.as_str(), module_s.as_str());
            let resolved = chars_of(resolved_s.as_str());
            let parts = split_v(&imports_raw, &comma);
            let ghost start = import_views(out@);
            let mut k: usize = 0;
            while k < parts.len()
                invariant
                    k <= parts.len(),
                    as_kw@ == " as "@,
                    star@ == "*"@,
                    dot@ == "."@,
                    resolved@ == resolve_python_module_spec(path@, trim(module_raw@)),
                    views(parts@) == split(imports_raw@, ","@),
                    split_once(trim(trim_start_matches(statement@, "from "@)), " import "@)
                        == Some((module_raw@, imports_raw@)),
                    import_views(out@) + from_items_from(
                        views(parts@),
                        resolved@,
                        path@,
                        line as int,
                        k as int,
                    ) == start + from_import_stmt(statement@, path@, line as int),
                decreases parts.len() - k,
            {
                assert(views(parts@)[k as int] == parts@[k as int]@);
                let ghost before = import_views(out@);
                let imported = trim_v(&parts[k]);
                if imported.len() > 0 {
                    let head = before_first_v(&imported, &as_kw);
                    let name = trim_v(&head);
                    if name.len() > 0 {
                        let target = if eq_v(&name, &star) {
                            resolved.clone()
                        } else if resolved.len() == 0 {
                            name.clone()
                        } else {
                            let with_dot = concat(&resolved, &dot);
                            concat(&with_dot, &name)
                        };
                        assert(target@ == from_target(resolved@, name@));
                        let rec = make_import(path, &target, &name, line as u32);
                        out.push(rec);
                        assert(import_views(out@) =~= before.push(rec@));
                    }
                }
                assert(before + from_items_from(
                    views(parts@),
                    resolved@,
                    path@,
                    line as int,
                    k as int,
                ) =~= import_views(out@) + from_items_from(
                    views(parts@),
                    resolved@,
                    path@,
                    line as int,
                    k + 1,
                ));
                k = k + 1;
            }
            assert(import_views(out@) + from_items_from(
                views(parts@),
                resolved@,
                path@,
                line as int,
                k as int,
            ) =~= import_views(out@));
        },
    }
}

fn statement_imports_v(out: &mut Vec<RawImport>, joined: &Vec<char>, path: &Vec<char>, line: usize)
    ensures
        import_views(final(out)@) == import_views(old(out)@) + statement_imports(
            joined@,
            path@,
            line as int,
        ),
{
    let from_kw = chars_of("from ");
    let import_kw = chars_of("import ");
    if starts_with_v(joined, &from_kw) {
        from_import_stmt_v(out, joined, path, line);
    } else if starts_with_v(joined, &import_kw) {
        import_stmt_v(out, joined, path, line);
    } else {
        assert(import_views(out@) =~= import_views(out@) + Seq::<ImportSpec>::empty());
    }
}

fn contains_char_v(s: &Vec<char>, c: char) -> (b: bool)
    ensures
        b == s@.contains(c),
{
    let mut i: usize = 0;
    while i < s.len()
        invariant
            i <= s.len(),
            forall|k: int| 0 <= k < i ==> s@[k] != c,
        decreases s.len() - i,
    {
        if s[i] == c {
            assert(s@[i as int] == c);
            return true;
        }
        i = i + 1;
    }
    false
}

fn buffer_append_v(buffer: &Vec<char>, content: &Vec<char>) -> (r: Vec<char>)
    ensures
        r@ == buffer_append(buffer@, content@),
{
    let mut b = buffer.clone();
    if b.len() > 0 {
        b.push(' ');
    }
    concat(&b, content)
}

/// Extract Python import statements, including multi-line parenthesized forms.
pub fn extract_imports(source: &str, source_path: &str) -> (r: Vec<RawImport>)
    ensures
        import_views(r@) == py_imports(source@, source_path@),
{
    let src = chars_of(source);
    let path = chars_of(source_path);
    let ls = lines_v(&src);
    let close = chars_of(")");
    let open = chars_of("(");
    let from_kw = chars_of("from ");
    let import_kw = chars_of("import ");
    let empty: Vec<char> = Vec::new();
    proof {
        reveal_strlit("(");
        reveal_strlit(")");
    }
    let mut out: Vec<RawImport> = Vec::new();
    let mut buffer: Vec<char> = Vec::new();
    let mut start_line: usize = 0;
    let mut in_paren = false;
    let mut idx: usize = 0;
    while idx < ls.len()
        invariant
            idx <= ls.len(),
            start_line <= ls.len(),
            views(ls@) == lines(src@),
            src@ == source@,
            path@ == source_path@,
            close@ == ")"@,
            open@ == "("@,
            open@.len() == 1,
            from_kw@ == "from "@,
            import_kw@ == "import "@,
            empty@ == Seq::<char>::empty(),
            import_views(out@) + py_imports_from(
                views(ls@),
                path@,
                idx as int,
                buffer@,
                start_line as int,
                in_paren,
            ) == py_imports(source@, source_path@),
        decreases ls.len() - idx,
    {
        let t = trim_v(&ls[idx]);
        assert(views(ls@)[idx as int] == ls@[idx as int]@);
        let ghost before = import_views(out@);
        let ghost old_buffer = buffer@;
        let ghost old_start = start_line;
        if in_paren {
            proof {
                lemma_find_bounds(t@, close@);
            }
            match find_v(&t, &close) {
                Some(pos) => {
                    let content = slice_of(&t, 0, pos);
                    assert(content@ =~= t@.take(pos as int));
                    let buf = buffer_append_v(&buffer, &content);
                    let joined = trim_v(&buf);
                    statement_imports_v(&mut out, &joined, &path, start_line);
                    buffer = Vec::new();
                    in_paren = false;
                    assert(before + py_imports_from(
                        views(ls@),
                        path@,
                        idx as int,
                        old_buffer,
                        old_start as int,
                        true,
                    ) =~= import_views(out@) + py_imports_from(
                        views(ls@),
                        path@,
                        idx + 1,
                        buffer@,
                        start_line as int,
                        in_paren,
                    ));
                },
                None => {
                    buffer = buffer_append_v(&buffer, &t);
                },
            }
        } else if (starts_with_v(&t, &from_kw) || starts_with_v(&t, &import_kw))
            && contains_char_v(&t, '(') && !contains_char_v(&t, ')') {
            in_paren = true;
            start_line = idx + 1;
            let clean = replace_v(&t, &open, &empty);
            buffer = trim_v(&clean);
        } else if starts_with_v(&t, &import_kw) {
            import_stmt_v(&mut out, &t, &path, idx + 1);
            assert(before + py_imports_from(
                views(ls@),
                path@,
                idx as int,
                buffer@,
                start_line as int,
                false,
            ) =~= import_views(out@) + py_imports_from(
                views(ls@),
                path@,
                idx + 1,
                buffer@,
                start_line as int,
                false,
            ));
        } else if starts_with_v(&t, &from_kw) {
            from_import_stmt_v(&mut out, &t, &path, idx + 1);
            assert(before + py_imports_from(
                views(ls@),
                path@,
                idx as int,
                buffer@,
                start_line as int,
                false,
            ) =~= import_views(out@) + py_imports_from(
                views(ls@),
                path@,
                idx + 1,
                buffer@,
                start_line as int,
                false,
            ));
        }
        idx = idx + 1;
    }
    assert(import_views(out@) + py_imports_from(
        views(ls@),
        path@,
        idx as int,
        buffer@,
        start_line as int,
        in_paren,
    ) =~= import_views(out@));
    out
}


// ---------------------------------------------------------------------------
// Symbols
// ---------------------------------------------------------------------------

/// Names starting with `_` are private by convention.
pub open spec fn py_visibility(name: Seq<char>) -> Seq<char> {
    if name.len() > 0 && name[0] == '_' {
        "private"@
    } else {
        "public"@
    }
}

pub open spec fn py_opt_list(o: Option<SymbolView>) -> Seq<SymbolView> {
    match o {
        Some(s) => seq![s],
        None => Seq::empty(),
    }
}

/// A function definition (a method inside a class); none without a name or
/// a first line.
pub open spec fn py_function(node: SyntaxNode, parent: Option<Seq<char>>) -> Option<SymbolView> {
    match (field_child(node, "name"@), first_line(node.text@)) {
        (Some(i), Some(sig)) => {
            let name = node.children@[i].text@;
            Some(
                node_symbol(
                    node,
                    name,
                    qualify(parent, name, "."@),
                    if parent is Some {
                        SymbolKind::Method
                    } else {
                        SymbolKind::Function
                    },
                    "python"@,
                    Some(sig),
                    Some(py_visibility(name)),
                    parent,
                ),
            )
        },
        _ => None,
    }
}

/// A class definition.
pub open spec fn py_class(node: SyntaxNode, parent: Option<Seq<char>>) -> Option<SymbolView> {
    match field_child(node, "name"@) {
        Some(i) => {
            let name = node.children@[i].text@;
            Some(
                node_symbol(
                    node,
                    name,
                    qualify(parent, name, "."@),
                    SymbolKind::Class,
                    "python"@,
                    None,
                    None,
                    parent,
                ),
            )
        },
        None => None,
    }
}

/// Module-level variables assigned by the first `k` children of an
/// expression statement: each assignment to a plain identifier.
pub open spec fn py_assignments(node: SyntaxNode, parent: Option<Seq<char>>, k: int) -> Seq<
    SymbolView,
>
    decreases k,
{
    if k <= 0 || k > node.children@.len() {
        Seq::empty()
    } else {
        let c = node.children@[k - 1];
        py_assignments(node, parent, k - 1) + if c.kind@ == "assignment"@ && parent is None {
            match field_child(c, "left"@) {
                Some(l) => if c.children@[l].kind@ == "identifier"@ {
                    let name = c.children@[l].text@;
                    seq![
                        node_symbol(
                            node,
                            name,
                            name,
                            SymbolKind::Variable,
                            "python"@,
                            None,
                            None,
                            None,
                        ),
                    ]
                } else {
                    Seq::empty()
                },
                None => Seq::empty(),
            }
        } else {
            Seq::empty()
        }
    }
}

/// The symbols of a Python syntax tree, in document order: functions,
/// classes with their methods (qualified by class), decorated definitions,
/// and module-level variables.
pub open spec fn py_walk(node: SyntaxNode, parent: Option<Seq<char>>) -> Seq<SymbolView>
    decreases node, 1int, 0int,
{
    let k = node.kind@;
    let n = node.children@.len() as int;
    if k == "function_definition"@ {
        py_opt_list(py_function(node, parent)) + py_children(node, parent, n)
    } else if k == "class_definition"@ {
        match py_class(node, parent) {
            Some(s) => seq![s] + match field_child(node, "body"@) {
                Some(b) => {
                    proof {
                        crate::languages::syntax::lemma_field_child_from(
                            node.children@,
                            "body"@,
                            0,
                        );
                        assert(decreases_to!(node => node.children@[b]));
                    }
                    py_children(
                        node.children@[b],
                        Some(s.name),
                        node.children@[b].children@.len() as int,
                    )
                },
                None => Seq::empty(),
            },
            None => py_children(node, parent, n),
        }
    } else if k == "decorated_definition"@ {
        py_decorated(node, parent, n)
    } else if k == "expression_statement"@ {
        py_assignments(node, parent, n) + py_children(node, parent, n)
    } else {
        py_children(node, parent, n)
    }
}

pub open spec fn py_children(node: SyntaxNode, parent: Option<Seq<char>>, k: int) -> Seq<SymbolView>
    decreases node, 0int, k,
{
    if k <= 0 || k > node.children@.len() {
        Seq::empty()
    } else {
        proof {
            assert(decreases_to!(node => node.children@[k - 1]));
        }
        py_children(node, parent, k - 1) + py_walk(node.children@[k - 1], parent)
    }
}

/// The definitions a decorated definition wraps, among its first `k`
/// children.
pub open spec fn py_decorated(node: SyntaxNode, parent: Option<Seq<char>>, k: int) -> Seq<SymbolView>
    decreases node, 0int, k,
{
    if k <= 0 || k > node.children@.len() {
        Seq::empty()
    } else {
        proof {
            assert(decreases_to!(node => node.children@[k - 1]));
        }
        let c = node.children@[k - 1];
        py_decorated(node, parent, k - 1) + if c.kind@ == "function_definition"@ || c.kind@
            == "class_definition"@ {
            py_walk(c, parent)
        } else {
            Seq::empty()
        }
    }
}

/// The node kinds the walk tells apart are different texts.
proof fn lemma_python_kind_names_distinct()
    ensures
        "function_definition"@ != "class_definition"@,
        "function_definition"@ != "decorated_definition"@,
        "function_definition"@ != "expression_statement"@,
        "class_definition"@ != "decorated_definition"@,
        "class_definition"@ != "expression_statement"@,
        "decorated_definition"@ != "expression_statement"@,
{
    reveal_strlit("function_definition");
    reveal_strlit("class_definition");
    reveal_strlit("decorated_definition");
    reveal_strlit("expression_statement");
    assert("function_definition"@.len() != "class_definition"@.len());
    assert("function_definition"@.len() != "decorated_definition"@.len());
    assert("function_definition"@.len() != "expression_statement"@.len());
    assert("class_definition"@.len() != "decorated_definition"@.len());
    assert("class_definition"@.len() != "expression_statement"@.len());
    assert("decorated_definition"@[0] != "expression_statement"@[0]);
}

/// A named class gives a `Class` symbol with its name, first among the
/// symbols of its definition.
pub proof fn lemma_python_class_symbol(node: SyntaxNode, parent: Option<Seq<char>>)
    requires
        node.kind@ == "class_definition"@,
        field_child(node, "name"@) is Some,
    ensures
        py_walk(node, parent).len() > 0,
        py_walk(node, parent)[0].kind == SymbolKind::Class,
        py_walk(node, parent)[0].name == node.children@[field_child(node, "name"@)->0].text@,
{
    lemma_python_kind_names_distinct();
}

/// The first `k` children of a decorated definition whose only definition
/// is child `j` give that definition's symbols once `k` passes `j`, none
/// before.
proof fn lemma_py_decorated_single(node: SyntaxNode, parent: Option<Seq<char>>, j: int, k: int)
    requires
        0 <= j < node.children@.len(),
        0 <= k <= node.children@.len(),
        forall|m: int|
            0 <= m < node.children@.len() && m != j ==> (#[trigger] node.children@[m]).kind@
                != "function_definition"@ && node.children@[m].kind@ != "class_definition"@,
        node.children@[j].kind@ == "function_definition"@ || node.children@[j].kind@
            == "class_definition"@,
    ensures
        py_decorated(node, parent, k) == if k > j {
            py_walk(node.children@[j], parent)
        } else {
            Seq::<SymbolView>::empty()
        },
    decreases k,
{
    if k > 0 {
        lemma_py_decorated_single(node, parent, j, k - 1);
        let c = node.children@[k - 1];
        if k - 1 == j {
            assert(py_decorated(node, parent, k) =~= Seq::<SymbolView>::empty() + py_walk(c, parent));
        } else {
            assert(py_decorated(node, parent, k) =~= py_decorated(node, parent, k - 1));
        }
    }
}

/// Decorators do not change what a definition declares: a decorated
/// definition holding one function or class definition (beside its
/// decorators) gives exactly the symbols of that definition alone.
pub proof fn lemma_python_decorators_transparent(node: SyntaxNode, parent: Option<Seq<char>>, j: int)
    requires
        node.kind@ == "decorated_definition"@,
        0 <= j < node.children@.len(),
        node.children@[j].kind@ == "function_definition"@ || node.children@[j].kind@
            == "class_definition"@,
        forall|m: int|
            0 <= m < node.children@.len() && m != j ==> (#[trigger] node.children@[m]).kind@
                != "function_definition"@ && node.children@[m].kind@ != "class_definition"@,
    ensures
        py_walk(node, parent) == py_walk(node.children@[j], parent),
{
    lemma_python_kind_names_distinct();
    lemma_py_decorated_single(node, parent, j, node.children@.len() as int);
}

fn py_push_opt(out: &mut Vec<ExtractedSymbol>, s: Option<ExtractedSymbol>)
    ensures
        symbol_views(final(out)@) == symbol_views(old(out)@) + match s {
            Some(x) => seq![x@],
            None => Seq::<SymbolView>::empty(),
        },
{
    let ghost before = symbol_views(out@);
    match s {
        Some(x) => {
            out.push(x);
            assert(symbol_views(out@) =~= before + seq![x@]);
        },
        None => {
            assert(symbol_views(out@) =~= before + Seq::<SymbolView>::empty());
        },
    }
}

fn py_visibility_v(name: &str) -> (r: String)
    ensures
        r@ == py_visibility(name@),
{
    let cs = chars_of(name);
    if cs.len() > 0 && cs[0] == '_' {
        "private".to_owned()
    } else {
        "public".to_owned()
    }
}

fn py_function_v(node: &SyntaxNode, parent: Option<&str>) -> (r: Option<ExtractedSymbol>)
    ensures
        match (r, py_function(*node, opt_seq(parent))) {
            (Some(a), Some(b)) => a@ == b,
            (None, None) => true,
            _ => false,
        },
{
    let i = match field_child_v(node, "name") {
        Some(i) => i,
        None => {
            return None;
        },
    };
    let sig = match first_line_v(node.text.as_str()) {
        Some(l) => l,
        None => {
            return None;
        },
    };
    let name = node.children[i].text.clone();
    let qualified = qualify_v(parent, name.as_str(), ".");
    let kind = if parent.is_some() {
        SymbolKind::Method
    } else {
        SymbolKind::Function
    };
    let vis = py_visibility_v(name.as_str());
    Some(make_symbol(node, name, qualified, kind, "python", Some(sig), Some(vis), own_opt(parent)))
}

fn py_class_v(node: &SyntaxNode, parent: Option<&str>) -> (r: Option<ExtractedSymbol>)
    ensures
        match (r, py_class(*node, opt_seq(parent))) {
            (Some(a), Some(b)) => a@ == b,
            (None, None) => true,
            _ => false,
        },
{
    match field_child_v(node, "name") {
        Some(i) => {
            let name = node.children[i].text.clone();
            let qualified = qualify_v(parent, name.as_str(), ".");
            Some(
                make_symbol(
                    node,
                    name,
                    qualified,
                    SymbolKind::Class,
                    "python",
                    None,
                    None,
                    own_opt(parent),
                ),
            )
        },
        None => None,
    }
}

fn py_assignments_v(node: &SyntaxNode, parent: Option<&str>, out: &mut Vec<ExtractedSymbol>)
    ensures
        symbol_views(final(out)@) == symbol_views(old(out)@) + py_assignments(
            *node,
            opt_seq(parent),
            node.children@.len() as int,
        ),
{
    let ghost before = symbol_views(out@);
    let mut i: usize = 0;
    while i < node.children.len()
        invariant
            i <= node.children@.len(),
            symbol_views(out@) == before + py_assignments(*node, opt_seq(parent), i as int),
        decreases node.children.len() - i,
    {
        let c = &node.children[i];
        if str_eq_kind(c, "assignment") && parent.is_none() {
            match field_child_v(c, "left") {
                Some(l) => {
                    if str_eq_kind(&c.children[l], "identifier") {
                        let name = c.children[l].text.clone();
                        let s = make_symbol(
                            node,
                            name.clone(),
                            name,
                            SymbolKind::Variable,
                            "python",
                            None,
                            None,
                            None,
                        );
                        py_push_opt(out, Some(s));
                    }
                },
                None => {},
            }
        }
        assert(symbol_views(out@) =~= before + py_assignments(*node, opt_seq(parent), i + 1));
        i = i + 1;
    }
}

fn str_eq_kind(n: &SyntaxNode, kind: &str) -> (r: bool)
    ensures
        r == (n.kind@ == kind@),
{
    crate::text::str_eq(n.kind.as_str(), kind)
}

fn py_walk_v(node: &SyntaxNode, parent: Option<&str>, out: &mut Vec<ExtractedSymbol>)
    ensures
        symbol_views(final(out)@) == symbol_views(old(out)@) + py_walk(*node, opt_seq(parent)),
    decreases *node, 1int,
{
    let ghost p = opt_seq(parent);
    let ghost before = symbol_views(out@);
    if str_eq_kind(node, "function_definition") {
        let s = py_function_v(node, parent);
        py_push_opt(out, s);
        py_children_v(node, parent, out);
        assert(symbol_views(out@) =~= before + py_walk(*node, p));
    } else if str_eq_kind(node, "class_definition") {
        match py_class_v(node, parent) {
            Some(sym) => {
                let name = sym.name.clone();
                out.push(sym);
                assert(symbol_views(out@) =~= before + seq![sym@]);
                let ghost mid = symbol_views(out@);
                match field_child_v(node, "body") {
                    Some(b) => {
                        assert(decreases_to!(*node => node.children@[b as int]));
                        py_children_v(&node.children[b], Some(name.as_str()), out);
                    },
                    None => {
                        assert(symbol_views(out@) =~= mid + Seq::<SymbolView>::empty());
                    },
                }
                assert(symbol_views(out@) =~= before + py_walk(*node, p));
            },
            None => {
                py_children_v(node, parent, out);
            },
        }
    } else if str_eq_kind(node, "decorated_definition") {
        let mut i: usize = 0;
        while i < node.children.len()
            invariant
                i <= node.children@.len(),
                p == opt_seq(parent),
                symbol_views(out@) == before + py_decorated(*node, p, i as int),
            decreases node.children.len() - i,
        {
            let c = &node.children[i];
            let ghost prev = symbol_views(out@);
            let ghost cc = node.children@[i as int];
            assert(py_decorated(*node, p, i + 1) == py_decorated(*node, p, i as int) + if cc.kind@
                == "function_definition"@ || cc.kind@ == "class_definition"@ {
                py_walk(cc, p)
            } else {
                Seq::<SymbolView>::empty()
            });
            if str_eq_kind(c, "function_definition") || str_eq_kind(c, "class_definition") {
                assert(decreases_to!(*node => node.children@[i as int]));
                py_walk_v(&node.children[i], parent, out);
                assert(symbol_views(out@) == prev + py_walk(cc, p));
            } else {
                assert(symbol_views(out@) =~= prev + Seq::<SymbolView>::empty());
            }
            assert(symbol_views(out@) =~= before + py_decorated(*node, p, i + 1));
            i = i + 1;
        }
    } else if str_eq_kind(node, "expression_statement") {
        py_assignments_v(node, parent, out);
        py_children_v(node, parent, out);
        assert(symbol_views(out@) =~= before + py_walk(*node, p));
    } else {
        py_children_v(node, parent, out);
    }
}

fn py_children_v(node: &SyntaxNode, parent: Option<&str>, out: &mut Vec<ExtractedSymbol>)
    ensures
        symbol_views(final(out)@) == symbol_views(old(out)@) + py_children(
            *node,
            opt_seq(parent),
            node.children@.len() as int,
        ),
    decreases *node, 0int,
{
    let ghost before = symbol_views(out@);
    let mut i: usize = 0;
    while i < node.children.len()
        invariant
            i <= node.children@.len(),
            symbol_views(out@) == before + py_children(*node, opt_seq(parent), i as int),
        decreases node.children.len() - i,
    {
        assert(decreases_to!(*node => node.children@[i as int]));
        py_walk_v(&node.children[i], parent, out);
        assert(symbol_views(out@) =~= before + py_children(*node, opt_seq(parent), i + 1));
        i = i + 1;
    }
}

/// Extract the symbols of a Python syntax tree.
pub fn extract(root: &SyntaxNode) -> (r: Vec<ExtractedSymbol>)
    ensures
        symbol_views(r@) == py_walk(*root, None),
{
    let mut out: Vec<ExtractedSymbol> = Vec::new();
    py_walk_v(root, None, &mut out);
    assert(symbol_views(out@) =~= Seq::<SymbolView>::empty() + py_walk(*root, None));
    out
}

} // verus!
