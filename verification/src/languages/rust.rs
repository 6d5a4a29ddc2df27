//! Rust symbol extraction, and `use` import extraction with nested `{..}`
//! groups expanded.

use vstd::prelude::*;
use crate::imports::{RawImport, ImportSpec, import_spec, import_views, make_import};
use crate::languages::python::buffer_append;
use crate::languages::syntax::{
    children_have_kind, field_child, field_child_v, first_line, first_line_v, lemma_children_have_kind_mono,
    make_symbol, node_symbol, opt_seq, own_opt, tree_has_kind,
    qualify, qualify_v, symbol_views, ExtractedSymbol, SymbolView, SyntaxNode,
};
use crate::types::SymbolKind;
use crate::text::{
    after_last, after_last_v, chars_of, concat, ends_with, ends_with_v, find, find_v,
    lemma_find_bounds, lemma_occurs_single, lemma_rfind_bounds, lines, lines_v, occurs_at,
    replace, replace_v, rfind, rfind_v, slice_of, split_once, split_once_v, starts_with,
    starts_with_v, strip_prefix, strip_prefix_v, trim, trim_end, trim_end_matches,
    trim_end_matches_v, trim_start, trim_v, views,
};

verus! {

// ---------------------------------------------------------------------------
// Counting `{`
// ---------------------------------------------------------------------------

/// Number of `{` characters in `s`; each brace expansion removes one.
pub open spec fn open_count(s: Seq<char>) -> nat
    decreases s.len(),
{
    if s.len() == 0 {
        0
    } else {
        (if s.last() == '{' {
            1nat
        } else {
            0nat
        }) + open_count(s.drop_last())
    }
}

pub proof fn lemma_open_count_concat(a: Seq<char>, b: Seq<char>)
    ensures
        open_count(a + b) == open_count(a) + open_count(b),
    decreases b.len(),
{
    if b.len() == 0 {
        assert(a + b =~= a);
    } else {
        lemma_open_count_concat(a, b.drop_last());
        assert((a + b).drop_last() =~= a + b.drop_last());
    }
}

pub proof fn lemma_open_count_split(s: Seq<char>, k: int)
    requires
        0 <= k <= s.len(),
    ensures
        open_count(s) == open_count(s.take(k)) + open_count(s.skip(k)),
{
    lemma_open_count_concat(s.take(k), s.skip(k));
    assert(s.take(k) + s.skip(k) =~= s);
}

pub proof fn lemma_open_count_front(s: Seq<char>)
    requires
        s.len() > 0,
    ensures
        open_count(s) == (if s[0] == '{' {
            1nat
        } else {
            0nat
        }) + open_count(s.drop_first()),
{
    lemma_open_count_concat(seq![s[0]], s.drop_first());
    assert(seq![s[0]] + s.drop_first() =~= s);
    assert(seq![s[0]].drop_last() =~= Seq::<char>::empty());
    assert(open_count(Seq::<char>::empty()) == 0);
    assert(seq![s[0]].last() == s[0]);
}

pub proof fn lemma_open_count_none(s: Seq<char>)
    requires
        forall|k: int| 0 <= k < s.len() ==> s[k] != '{',
    ensures
        open_count(s) == 0,
    decreases s.len(),
{
    if s.len() > 0 {
        lemma_open_count_none(s.drop_last());
    }
}

pub proof fn lemma_open_count_trim(s: Seq<char>)
    ensures
        open_count(trim(s)) <= open_count(s),
{
    lemma_open_count_trim_start(s);
    lemma_open_count_trim_end(trim_start(s));
}

proof fn lemma_open_count_trim_start(s: Seq<char>)
    ensures
        open_count(trim_start(s)) <= open_count(s),
    decreases s.len(),
{
    if s.len() > 0 && crate::text::is_ws(s[0]) {
        lemma_open_count_front(s);
        lemma_open_count_trim_start(s.drop_first());
    }
}

proof fn lemma_open_count_trim_end(s: Seq<char>)
    ensures
        open_count(trim_end(s)) <= open_count(s),
    decreases s.len(),
{
    if s.len() > 0 && crate::text::is_ws(s.last()) {
        lemma_open_count_trim_end(s.drop_last());
    }
}

proof fn lemma_open_count_trim_end_matches(s: Seq<char>, p: Seq<char>)
    ensures
        open_count(trim_end_matches(s, p)) <= open_count(s),
    decreases s.len(),
{
    if p.len() > 0 && ends_with(s, p) {
        lemma_open_count_split(s, s.len() - p.len());
        lemma_open_count_trim_end_matches(s.take(s.len() - p.len()), p);
    }
}

// ---------------------------------------------------------------------------
// Splitting a brace group at top-level commas
// ---------------------------------------------------------------------------

/// Splits `s[i..]` at commas outside nested braces, continuing a scan at
/// brace depth `depth` with `cur` collected so far. Each part is trimmed; a
/// part that ends the text is kept only if non-empty.
pub open spec fn split_top_from(s: Seq<char>, i: int, depth: nat, cur: Seq<char>) -> Seq<
    Seq<char>,
>
    decreases s.len() - i,
{
    if i < 0 || i >= s.len() {
        if trim(cur).len() > 0 {
            seq![trim(cur)]
        } else {
            Seq::empty()
        }
    } else if s[i] == '{' {
        split_top_from(s, i + 1, depth + 1, cur.push('{'))
    } else if s[i] == '}' {
        split_top_from(
            s,
            i + 1,
            if depth > 0 {
                (depth - 1) as nat
            } else {
                0
            },
            cur.push('}'),
        )
    } else if s[i] == ',' && depth == 0 {
        seq![trim(cur)] + split_top_from(s, i + 1, 0, Seq::empty())
    } else {
        split_top_from(s, i + 1, depth, cur.push(s[i]))
    }
}

/// The comma-separated parts of a brace group's contents.
pub open spec fn split_top_level_spec(s: Seq<char>) -> Seq<Seq<char>> {
    split_top_from(s, 0, 0, Seq::empty())
}

proof fn lemma_split_top_counts(s: Seq<char>, i: int, depth: nat, cur: Seq<char>)
    requires
        0 <= i <= s.len(),
    ensures
        forall|j: int|
            0 <= j < split_top_from(s, i, depth, cur).len() ==> open_count(
                #[trigger] split_top_from(s, i, depth, cur)[j],
            ) <= open_count(cur) + open_count(s.skip(i)),
    decreases s.len() - i,
{
    if i >= s.len() {
        lemma_open_count_trim(cur);
        let all = split_top_from(s, i, depth, cur);
        assert forall|j: int| 0 <= j < all.len() implies open_count(#[trigger] all[j])
            <= open_count(cur) + open_count(s.skip(i)) by {
            assert(all[j] == trim(cur));
        }
    } else {
        lemma_open_count_front(s.skip(i));
        assert(s.skip(i).drop_first() =~= s.skip(i + 1));
        assert(s.skip(i)[0] == s[i]);
        let all = split_top_from(s, i, depth, cur);
        if s[i] == '{' {
            let c2 = cur.push('{');
            lemma_split_top_counts(s, i + 1, depth + 1, c2);
            assert(c2.drop_last() =~= cur);
            assert(open_count(c2) == open_count(cur) + 1);
            let rest = split_top_from(s, i + 1, depth + 1, c2);
            assert(all == rest);
            assert forall|j: int| 0 <= j < all.len() implies open_count(#[trigger] all[j])
                <= open_count(cur) + open_count(s.skip(i)) by {
                assert(all[j] == rest[j]);
            }
        } else if s[i] == '}' {
            let d = if depth > 0 {
                (depth - 1) as nat
            } else {
                0
            };
            let c2 = cur.push('}');
            lemma_split_top_counts(s, i + 1, d, c2);
            assert(c2.drop_last() =~= cur);
            assert(open_count(c2) == open_count(cur));
            let rest = split_top_from(s, i + 1, d, c2);
            assert(all == rest);
            assert forall|j: int| 0 <= j < all.len() implies open_count(#[trigger] all[j])
                <= open_count(cur) + open_count(s.skip(i)) by {
                assert(all[j] == rest[j]);
            }
        } else if s[i] == ',' && depth == 0 {
            lemma_split_top_counts(s, i + 1, 0, Seq::empty());
            lemma_open_count_trim(cur);
            assert(open_count(Seq::<char>::empty()) == 0);
            let rest = split_top_from(s, i + 1, 0, Seq::empty());
            assert(all == seq![trim(cur)] + rest);
            assert forall|j: int| 0 <= j < all.len() implies open_count(#[trigger] all[j])
                <= open_count(cur) + open_count(s.skip(i)) by {
                if j > 0 {
                    assert(all[j] == rest[j - 1]);
                } else {
                    assert(all[j] == trim(cur));
                }
            }
        } else {
            let c2 = cur.push(s[i]);
            lemma_split_top_counts(s, i + 1, depth, c2);
            assert(c2.drop_last() =~= cur);
            assert(open_count(c2) == open_count(cur));
            let rest = split_top_from(s, i + 1, depth, c2);
            assert(all == rest);
            assert forall|j: int| 0 <= j < all.len() implies open_count(#[trigger] all[j])
                <= open_count(cur) + open_count(s.skip(i)) by {
                assert(all[j] == rest[j]);
            }
        }
    }
}

/// Splits the contents of a brace group at top-level commas.
pub fn split_top_level(input: &Vec<char>) -> (r: Vec<Vec<char>>)
    ensures
        views(r@) == split_top_level_spec(input@),
{
    let mut parts: Vec<Vec<char>> = Vec::new();
    let mut current: Vec<char> = Vec::new();
    let mut depth: usize = 0;
    let mut i: usize = 0;
    while i < input.len()
        invariant
            i <= input.len(),
            depth <= i,
            views(parts@) + split_top_from(input@, i as int, depth as nat, current@)
                == split_top_level_spec(input@),
        decreases input.len() - i,
    {
        let ch = input[i];
        let ghost before = views(parts@);
        let ghost cur0 = current@;
        let ghost d0 = depth;
        if ch == '{' {
            depth = depth + 1;
            current.push(ch);
        } else if ch == '}' {
            depth = if depth > 0 {
                depth - 1
            } else {
                0
            };
            current.push(ch);
        } else if ch == ',' && depth == 0 {
            let piece = trim_v(&current);
            parts.push(piece);
            current = Vec::new();
            proof {
                assert(views(parts@) =~= before.push(trim(cur0)));
                assert(before + split_top_from(input@, i as int, d0 as nat, cur0) =~= views(
                    parts@,
                ) + split_top_from(input@, i + 1, 0, Seq::empty()));
            }
        } else {
            current.push(ch);
        }
        i = i + 1;
    }
    let tail = trim_v(&current);
    if tail.len() > 0 {
        let ghost before = views(parts@);
        parts.push(tail);
        assert(views(parts@) =~= before + seq![trim(current@)]);
    } else {
        assert(views(parts@) =~= views(parts@) + Seq::<Seq<char>>::empty());
    }
    parts
}

// ---------------------------------------------------------------------------
// Expanding `use` groups
// ---------------------------------------------------------------------------

/// `prefix::part`, or `part` alone when there is no prefix.
pub open spec fn merge_part(prefix: Seq<char>, part: Seq<char>) -> Seq<char> {
    if prefix.len() == 0 {
        part
    } else {
        prefix + "::"@ + part
    }
}

/// Every path with `suffix` appended.
pub open spec fn with_suffix(xs: Seq<Seq<char>>, suffix: Seq<char>) -> Seq<Seq<char>> {
    if suffix.len() == 0 {
        xs
    } else {
        xs.map_values(|x: Seq<char>| x + suffix)
    }
}

/// The paths a `use` tree denotes: `a::{b, c::{d, e}}` gives `a::b`,
/// `a::c::d` and `a::c::e`. The group is the text between the first `{` and
/// the last `}`.
pub open spec fn expand_use(expr: Seq<char>) -> Seq<Seq<char>>
    decreases open_count(expr), 1nat, 0int,
{
    let e = trim(expr);
    match find(e, "{"@) {
        None => seq![e],
        Some(o) => match rfind(e, "}"@) {
            None => seq![e],
            Some(c) => if c <= o {
                seq![e]
            } else {
                expand_parts(
                    split_top_level_spec(e.subrange(o + 1, c)),
                    trim(trim_end_matches(e.take(o), "::"@)),
                    trim(e.skip(c + 1)),
                    0,
                    open_count(expr),
                )
            },
        },
    }
}

/// Expansion of the group parts `k..`. Each part holds fewer `{` than the
/// tree it came from (`lemma_group_parts_smaller`), so the `bound` test
/// always passes; it only makes the recursion's measure visible.
pub open spec fn expand_parts(
    parts: Seq<Seq<char>>,
    prefix: Seq<char>,
    suffix: Seq<char>,
    k: int,
    bound: nat,
) -> Seq<Seq<char>>
    decreases bound, 0nat, parts.len() - k,
{
    if k < 0 || k >= parts.len() {
        Seq::empty()
    } else {
        let part = trim(parts[k]);
        let merged = merge_part(prefix, part);
        (if part.len() == 0 {
            Seq::empty()
        } else if open_count(merged) < bound {
            with_suffix(expand_use(merged), suffix)
        } else {
            Seq::empty()
        }) + expand_parts(parts, prefix, suffix, k + 1, bound)
    }
}

proof fn lemma_no_open_before_first(e: Seq<char>, o: int)
    requires
        find(e, "{"@) == Some(o),
    ensures
        open_count(e.take(o)) == 0,
        0 <= o < e.len(),
        e[o] == '{',
{
    reveal_strlit("{");
    lemma_find_bounds(e, "{"@);
    assert("{"@ =~= seq!['{']);
    lemma_occurs_single(e, '{', o);
    assert forall|k: int| 0 <= k < e.take(o).len() implies e.take(o)[k] != '{' by {
        lemma_occurs_single(e, '{', k);
    }
    lemma_open_count_none(e.take(o));
}

/// Every part of a `use` group, joined to the group's prefix, holds fewer
/// `{` than the whole tree.
proof fn lemma_group_parts_smaller(expr: Seq<char>, o: int, c: int)
    requires
        find(trim(expr), "{"@) == Some(o),
        rfind(trim(expr), "}"@) == Some(c),
        o < c,
    ensures
        forall|k: int|
            0 <= k < split_top_level_spec(trim(expr).subrange(o + 1, c)).len() ==> open_count(
                merge_part(
                    trim(trim_end_matches(trim(expr).take(o), "::"@)),
                    trim(#[trigger] split_top_level_spec(trim(expr).subrange(o + 1, c))[k]),
                ),
            ) < open_count(expr),
{
    let e = trim(expr);
    lemma_no_open_before_first(e, o);
    lemma_rfind_bounds(e, "}"@);
    reveal_strlit("}");
    reveal_strlit("::");
    let inner = e.subrange(o + 1, c);
    let prefix = trim(trim_end_matches(e.take(o), "::"@));
    lemma_open_count_trim_end_matches(e.take(o), "::"@);
    lemma_open_count_trim(trim_end_matches(e.take(o), "::"@));
    lemma_open_count_trim(expr);
    // count(e) = count(e[..o+1]) + count(inner) + count(e[c..])
    lemma_open_count_split(e, o + 1);
    assert(e.take(o + 1).drop_last() =~= e.take(o));
    lemma_open_count_split(e.skip(o + 1), c - o - 1);
    assert(e.skip(o + 1).take(c - o - 1) =~= inner);
    lemma_split_top_counts(inner, 0, 0, Seq::empty());
    assert(inner.skip(0) =~= inner);
    assert(open_count(Seq::<char>::empty()) == 0);
    assert(open_count("::"@) == 0) by {
        lemma_open_count_none("::"@);
    }
    let parts = split_top_level_spec(inner);
    assert forall|k: int| 0 <= k < parts.len() implies open_count(
        merge_part(prefix, trim(#[trigger] parts[k])),
    ) < open_count(expr) by {
        lemma_open_count_trim(parts[k]);
        let part = trim(parts[k]);
        if prefix.len() > 0 {
            lemma_open_count_concat(prefix, "::"@);
            lemma_open_count_concat(prefix + "::"@, part);
        }
    }
}

fn with_suffix_v(xs: Vec<Vec<char>>, suffix: &Vec<char>) -> (r: Vec<Vec<char>>)
    ensures
        views(r@) == with_suffix(views(xs@), suffix@),
{
    if suffix.len() == 0 {
        return xs;
    }
    let mut out: Vec<Vec<char>> = Vec::new();
    let mut k: usize = 0;
    while k < xs.len()
        invariant
            k <= xs.len(),
            suffix@.len() > 0,
            views(out@) == with_suffix(views(xs@), suffix@).take(k as int),
        decreases xs.len() - k,
    {
        let ghost before = views(out@);
        let item = concat(&xs[k], suffix);
        out.push(item);
        assert(views(out@) =~= before.push(xs@[k as int]@ + suffix@));
        assert(views(out@) =~= with_suffix(views(xs@), suffix@).take(k + 1));
        k = k + 1;
    }
    assert(with_suffix(views(xs@), suffix@).take(xs.len() as int) =~= with_suffix(
        views(xs@),
        suffix@,
    ));
    out
}

/// Expands a `use` tree into the paths it imports.
pub fn expand_use_expr(expr: &Vec<char>) -> (r: Vec<Vec<char>>)
    ensures
        views(r@) == expand_use(expr@),
    decreases open_count(expr@),
{
    let e = trim_v(expr);
    let open = chars_of("{");
    let close = chars_of("}");
    let colons = chars_of("::");
    proof {
        reveal_strlit("::");
    }
    let single = |x: Vec<char>| -> (r: Vec<Vec<char>>)
        ensures
            views(r@) == seq![x@],
        {
            let mut r: Vec<Vec<char>> = Vec::new();
            r.push(x);
            assert(views(r@) =~= seq![x@]);
            r
        };
    let o = match find_v(&e, &open) {
        None => {
            return single(e);
        },
        Some(o) => o,
    };
    let c = match rfind_v(&e, &close) {
        None => {
            return single(e);
        },
        Some(c) => c,
    };
    if c <= o {
        return single(e);
    }
    proof {
        lemma_no_open_before_first(e@, o as int);
        lemma_rfind_bounds(e@, close@);
        reveal_strlit("}");
        lemma_group_parts_smaller(expr@, o as int, c as int);
    }
    let head = slice_of(&e, 0, o);
    let stripped = trim_end_matches_v(&head, &colons);
    let prefix = trim_v(&stripped);
    let inner = slice_of(&e, o + 1, c);
    let tail = slice_of(&e, c + 1, e.len());
    let suffix = trim_v(&tail);
    let parts = split_top_level(&inner);
    let ghost bound = open_count(expr@);
    let mut out: Vec<Vec<char>> = Vec::new();
    let mut k: usize = 0;
    while k < parts.len()
        invariant
            k <= parts.len(),
            colons@ == "::"@,
            views(parts@) == split_top_level_spec(e@.subrange(o + 1, c as int)),
            prefix@ == trim(trim_end_matches(e@.take(o as int), "::"@)),
            suffix@ == trim(e@.skip(c + 1)),
            e@ == trim(expr@),
            bound == open_count(expr@),
            forall|j: int|
                0 <= j < split_top_level_spec(e@.subrange(o + 1, c as int)).len() ==> open_count(
                    merge_part(
                        trim(trim_end_matches(e@.take(o as int), "::"@)),
                        trim(#[trigger] split_top_level_spec(e@.subrange(o + 1, c as int))[j]),
                    ),
                ) < open_count(expr@),
            views(out@) + expand_parts(views(parts@), prefix@, suffix@, k as int, bound)
                == expand_parts(views(parts@), prefix@, suffix@, 0, bound),
        decreases parts.len() - k,
    {
        assert(views(parts@)[k as int] == parts@[k as int]@);
        let part = trim_v(&parts[k]);
        let ghost before = views(out@);
        if part.len() > 0 {
            let merged = if prefix.len() == 0 {
                part.clone()
            } else {
                let with_colons = concat(&prefix, &colons);
                concat(&with_colons, &part)
            };
            assert(merged@ == merge_part(prefix@, part@));
            assert(open_count(merged@) < open_count(expr@));
            let sub = expand_use_expr(&merged);
            let suffixed = with_suffix_v(sub, &suffix);
            let mut t: usize = 0;
            while t < suffixed.len()
                invariant
                    t <= suffixed.len(),
                    views(out@) == before + views(suffixed@).take(t as int),
                decreases suffixed.len() - t,
            {
                let ghost b2 = views(out@);
                out.push(suffixed[t].clone());
                assert(views(out@) =~= b2.push(suffixed@[t as int]@));
                assert(views(suffixed@).take(t + 1) =~= views(suffixed@).take(t as int).push(
                    suffixed@[t as int]@,
                ));
                t = t + 1;
            }
            assert(views(suffixed@).take(suffixed.len() as int) =~= views(suffixed@));
        }
        assert(before + expand_parts(views(parts@), prefix@, suffix@, k as int, bound)
            =~= views(out@) + expand_parts(views(parts@), prefix@, suffix@, k + 1, bound));
        k = k + 1;
    }
    assert(views(out@) + expand_parts(views(parts@), prefix@, suffix@, k as int, bound)
        =~= views(out@));
    assert(expand_use(expr@) == expand_parts(views(parts@), prefix@, suffix@, 0, bound));
    out
}

// ---------------------------------------------------------------------------
// Targets of a `use` statement
// ---------------------------------------------------------------------------

/// One expanded path normalised: alias dropped, `self::` segments removed, a
/// leading `crate::` dropped and trailing `::self` removed. A leading
/// `super::` is kept.
pub open spec fn normalize_rust_target_spec(target: Seq<char>) -> Seq<char> {
    let c0 = trim(target);
    let c1 = match split_once(c0, " as "@) {
        Some((lhs, _rhs)) => trim(lhs),
        None => c0,
    };
    let c2 = replace(c1, "self::"@, Seq::empty());
    let c3 = match strip_prefix(c2, "crate::"@) {
        Some(rest) => rest,
        None => c2,
    };
    if ends_with(c3, "::self"@) {
        trim_end_matches(c3, "::self"@)
    } else {
        c3
    }
}

/// The `use` tree of a statement: the leading `use ` and trailing `;`s
/// removed.
pub open spec fn use_tree(statement: Seq<char>) -> Seq<char> {
    let s = trim(statement);
    let s2 = match strip_prefix(s, "use "@) {
        Some(rest) => rest,
        None => s,
    };
    trim(trim_end_matches(s2, ";"@))
}

pub open spec fn normalized_nonempty_from(xs: Seq<Seq<char>>, k: int) -> Seq<Seq<char>>
    decreases xs.len() - k,
{
    if k < 0 || k >= xs.len() {
        Seq::empty()
    } else {
        let n = normalize_rust_target_spec(xs[k]);
        (if n.len() > 0 {
            seq![n]
        } else {
            Seq::empty()
        }) + normalized_nonempty_from(xs, k + 1)
    }
}

/// Import targets of one complete `use` statement.
pub open spec fn use_targets(statement: Seq<char>) -> Seq<Seq<char>> {
    normalized_nonempty_from(expand_use(use_tree(statement)), 0)
}

/// Text without white space is its own trim.
proof fn lemma_trim_solid(s: Seq<char>)
    requires
        s.len() > 0,
        !crate::text::is_ws(s[0]),
        !crate::text::is_ws(s.last()),
    ensures
        trim(s) == s,
{
}

/// An alias is dropped: `p as a` names the same target as `p`, for a path
/// and an alias without white space.
pub proof fn lemma_alias_dropped(p: Seq<char>, a: Seq<char>)
    requires
        p.len() > 0,
        a.len() > 0,
        forall|i: int| 0 <= i < p.len() ==> !crate::text::is_ws(#[trigger] p[i]),
        forall|i: int| 0 <= i < a.len() ==> !crate::text::is_ws(#[trigger] a[i]),
    ensures
        normalize_rust_target_spec(p + " as "@ + a) == normalize_rust_target_spec(p),
{
    reveal_strlit(" as ");
    let kw = " as "@;
    let t = p + kw + a;
    assert(t[0] == p[0]);
    assert(t.last() == a.last());
    lemma_trim_solid(t);
    lemma_trim_solid(p);
    lemma_find_bounds(p, kw);
    lemma_find_bounds(t, kw);
    if find(p, kw) is Some {
        let j = find(p, kw)->0;
        assert(occurs_at(p, kw, j));
        assert(p.subrange(j, j + 4)[0] == ' ');
        assert(p[j] == ' ');
    }
    assert(t.subrange(p.len() as int, p.len() + 4int) =~= kw);
    assert(occurs_at(t, kw, p.len() as int));
    assert forall|k: int| 0 <= k < p.len() implies !occurs_at(t, kw, k) by {
        if occurs_at(t, kw, k) {
            assert(t.subrange(k, k + 4)[0] == ' ');
            assert(t[k] == p[k]);
        }
    }
    let j = find(t, kw)->0;
    assert(find(t, kw) is Some);
    assert(j == p.len());
    assert(t.take(p.len() as int) =~= p);
}

/// Normalises one expanded `use` path.
pub fn normalize_rust_target(target: &Vec<char>) -> (r: Vec<char>)
    ensures
        r@ == normalize_rust_target_spec(target@),
{
    let as_kw = chars_of(" as ");
    let self_seg = chars_of("self::");
    let crate_seg = chars_of("crate::");
    let self_tail = chars_of("::self");
    let empty: Vec<char> = Vec::new();
    proof {
        reveal_strlit("self::");
        reveal_strlit("::self");
    }
    let c0 = trim_v(target);
    let c1 = match split_once_v(&c0, &as_kw) {
        Some((lhs, _rhs)) => trim_v(&lhs),
        None => c0,
    };
    let c2 = replace_v(&c1, &self_seg, &empty);
    assert(empty@ =~= Seq::<char>::empty());
    let c3 = match strip_prefix_v(&c2, &crate_seg) {
        Some(rest) => rest,
        None => c2,
    };
    if ends_with_v(&c3, &self_tail) {
        trim_end_matches_v(&c3, &self_tail)
    } else {
        c3
    }
}

/// Import targets of one complete `use` statement.
pub fn parse_use_targets(statement: &Vec<char>) -> (r: Vec<Vec<char>>)
    ensures
        views(r@) == use_targets(statement@),
{
    let use_kw = chars_of("use ");
    let semi = chars_of(";");
    proof {
        reveal_strlit(";");
    }
    let s = trim_v(statement);
    let s2 = match strip_prefix_v(&s, &use_kw) {
        Some(rest) => rest,
        None => s,
    };
    let s3 = trim_end_matches_v(&s2, &semi);
    let tree = trim_v(&s3);
    let expanded = expand_use_expr(&tree);
    let mut out: Vec<Vec<char>> = Vec::new();
    let mut k: usize = 0;
    while k < expanded.len()
        invariant
            k <= expanded.len(),
            views(expanded@) == expand_use(use_tree(statement@)),
            views(out@) + normalized_nonempty_from(views(expanded@), k as int) == use_targets(
                statement@,
            ),
        decreases expanded.len() - k,
    {
        assert(views(expanded@)[k as int] == expanded@[k as int]@);
        let ghost before = views(out@);
        let n = normalize_rust_target(&expanded[k]);
        if n.len() > 0 {
            out.push(n);
            assert(views(out@) =~= before.push(normalize_rust_target_spec(expanded@[k as int]@)));
        }
        assert(before + normalized_nonempty_from(views(expanded@), k as int) =~= views(out@)
            + normalized_nonempty_from(views(expanded@), k + 1));
        k = k + 1;
    }
    assert(views(out@) + normalized_nonempty_from(views(expanded@), k as int) =~= views(out@));
    out
}

// ---------------------------------------------------------------------------
// File scan
// ---------------------------------------------------------------------------

/// The local name a `use` path binds: its last segment, a trailing glob
/// dropped.
pub open spec fn use_target_name(target: Seq<char>) -> Seq<char> {
    after_last(trim_end_matches(target, "::*"@), "::"@)
}

pub open spec fn emit_targets_from(
    targets: Seq<Seq<char>>,
    path: Seq<char>,
    line: int,
    k: int,
) -> Seq<ImportSpec>
    decreases targets.len() - k,
{
    if k < 0 || k >= targets.len() {
        Seq::empty()
    } else {
        seq![import_spec(path, targets[k], use_target_name(targets[k]), line as u32)]
            + emit_targets_from(targets, path, line, k + 1)
    }
}

/// A line skipped as a comment.
pub open spec fn comment_line(t: Seq<char>) -> bool {
    starts_with(t, "//"@) || starts_with(t, "/*"@) || starts_with(t, "*"@)
}

/// Imports found in lines `idx..`, given the buffered statement text, the
/// line it started on and whether a `use` statement is open.
pub open spec fn rs_imports_from(
    ls: Seq<Seq<char>>,
    path: Seq<char>,
    idx: int,
    buffer: Seq<char>,
    start_line: int,
    in_use: bool,
) -> Seq<ImportSpec>
    decreases ls.len() - idx,
{
    if idx < 0 || idx >= ls.len() {
        Seq::empty()
    } else {
        let t = trim(ls[idx]);
        if comment_line(t) || (!in_use && !starts_with(t, "use "@)) {
            rs_imports_from(ls, path, idx + 1, buffer, start_line, in_use)
        } else {
            let buf0 = if in_use {
                buffer
            } else {
                Seq::empty()
            };
            let start = if in_use {
                start_line
            } else {
                idx + 1
            };
            let buf = buffer_append(buf0, t);
            if ends_with(t, ";"@) {
                emit_targets_from(use_targets(buf), path, start, 0) + rs_imports_from(
                    ls,
                    path,
                    idx + 1,
                    Seq::empty(),
                    start,
                    false,
                )
            } else {
                rs_imports_from(ls, path, idx + 1, buf, start, true)
            }
        }
    }
}

/// All `use` imports of a Rust source file.
pub open spec fn rs_imports(source: Seq<char>, path: Seq<char>) -> Seq<ImportSpec> {
    rs_imports_from(lines(source), path, 0, Seq::empty(), 0, false)
}

/// Extract Rust `use` imports from source text.
pub fn extract_imports(source: &str, source_path: &str) -> (r: Vec<RawImport>)
    ensures
        import_views(r@) == rs_imports(source@, source_path@),
{
    let src = chars_of(source);
    let path = chars_of(source_path);
    let ls = lines_v(&src);
    let line_comment = chars_of("//");
    let block_comment = chars_of("/*");
    let star = chars_of("*");
    let use_kw = chars_of("use ");
    let semi = chars_of(";");
    let glob = chars_of("::*");
    let colons = chars_of("::");
    proof {
        reveal_strlit("::*");
        reveal_strlit("::");
    }
    let mut out: Vec<RawImport> = Vec::new();
    let mut buffer: Vec<char> = Vec::new();
    let mut start_line: usize = 0;
    let mut in_use = false;
    let mut idx: usize = 0;
    while idx < ls.len()
        invariant
            idx <= ls.len(),
            start_line <= ls.len(),
            views(ls@) == lines(src@),
            src@ == source@,
            path@ == source_path@,
            line_comment@ == "//"@,
            block_comment@ == "/*"@,
            star@ == "*"@,
            use_kw@ == "use "@,
            semi@ == ";"@,
            glob@ == "::*"@,
            glob@.len() > 0,
            colons@ == "::"@,
            import_views(out@) + rs_imports_from(
                views(ls@),
                path@,
                idx as int,
                buffer@,
                start_line as int,
                in_use,
            ) == rs_imports(source@, source_path@),
        decreases ls.len() - idx,
    {
        let t = trim_v(&ls[idx]);
        assert(views(ls@)[idx as int] == ls@[idx as int]@);
        let ghost before = import_views(out@);
        let ghost old_buffer = buffer@;
        let ghost old_start = start_line;
        let ghost old_in = in_use;
        if starts_with_v(&t, &line_comment) || starts_with_v(&t, &block_comment) || starts_with_v(
            &t,
            &star,
        ) {
        } else if !in_use && !starts_with_v(&t, &use_kw) {
        } else {
            if !in_use {
                in_use = true;
                start_line = idx + 1;
                buffer = Vec::new();
            }
            if buffer.len() > 0 {
                buffer.push(' ');
            }
            buffer = concat(&buffer, &t);
            assert(buffer@ == buffer_append(if old_in {
                old_buffer
            } else {
                Seq::empty()
            }, t@));
            if ends_with_v(&t, &semi) {
                in_use = false;
                let targets = parse_use_targets(&buffer);
                let mut k: usize = 0;
                while k < targets.len()
                    invariant
                        k <= targets.len(),
                        glob@ == "::*"@,
                        glob@.len() > 0,
                        colons@ == "::"@,
                        import_views(out@) + emit_targets_from(
                            views(targets@),
                            path@,
                            start_line as int,
                            k as int,
                        ) == before + emit_targets_from(
                            views(targets@),
                            path@,
                            start_line as int,
                            0,
                        ),
                    decreases targets.len() - k,
                {
                    assert(views(targets@)[k as int] == targets@[k as int]@);
                    let ghost b2 = import_views(out@);
                    let stem = trim_end_matches_v(&targets[k], &glob);
                    let name = after_last_v(&stem, &colons);
                    let rec = make_import(&path, &targets[k], &name, start_line as u32);
                    out.push(rec);
                    assert(import_views(out@) =~= b2.push(rec@));
                    assert(b2 + emit_targets_from(
                        views(targets@),
                        path@,
                        start_line as int,
                        k as int,
                    ) =~= import_views(out@) + emit_targets_from(
                        views(targets@),
                        path@,
                        start_line as int,
                        k + 1,
                    ));
                    k = k + 1;
                }
                assert(import_views(out@) + emit_targets_from(
                    views(targets@),
                    path@,
                    start_line as int,
                    k as int,
                ) =~= import_views(out@));
                assert(before + rs_imports_from(
                    views(ls@),
                    path@,
                    idx as int,
                    old_buffer,
                    old_start as int,
                    old_in,
                ) =~= import_views(out@) + rs_imports_from(
                    views(ls@),
                    path@,
                    idx + 1,
                    Seq::empty(),
                    start_line as int,
                    false,
                ));
                buffer = Vec::new();
            }
        }
        idx = idx + 1;
    }
    assert(import_views(out@) + rs_imports_from(
        views(ls@),
        path@,
        idx as int,
        buffer@,
        start_line as int,
        in_use,
    ) =~= import_views(out@));
    out
}


// ---------------------------------------------------------------------------
// Symbols
// ---------------------------------------------------------------------------

/// Text of the first `visibility_modifier` child, from index `i` on.
pub open spec fn rs_visibility_from(children: Seq<SyntaxNode>, i: int) -> Option<Seq<char>>
    decreases children.len() - i,
{
    if i < 0 || i >= children.len() {
        None
    } else if children[i].kind@ == "visibility_modifier"@ {
        Some(children[i].text@)
    } else {
        rs_visibility_from(children, i + 1)
    }
}

pub open spec fn rs_visibility(node: SyntaxNode) -> Option<Seq<char>> {
    rs_visibility_from(node.children@, 0)
}

fn rs_visibility_v(node: &SyntaxNode) -> (r: Option<String>)
    ensures
        crate::languages::syntax::text_opt(r) == rs_visibility(*node),
{
    let mut i: usize = 0;
    while i < node.children.len()
        invariant
            i <= node.children@.len(),
            rs_visibility(*node) == rs_visibility_from(node.children@, i as int),
        decreases node.children.len() - i,
    {
        if crate::text::str_eq(node.children[i].kind.as_str(), "visibility_modifier") {
            return Some(node.children[i].text.clone());
        }
        i = i + 1;
    }
    None
}

/// A named Rust item: its `name` field gives the name; `None` when the
/// node has no name.
pub open spec fn rs_item(
    node: SyntaxNode,
    parent: Option<Seq<char>>,
    kind: SymbolKind,
    signature: Option<Seq<char>>,
) -> Option<SymbolView> {
    match field_child(node, "name"@) {
        Some(i) => {
            let name = node.children@[i].text@;
            Some(
                node_symbol(
                    node,
                    name,
                    qualify(parent, name, "::"@),
                    kind,
                    "rust"@,
                    signature,
                    rs_visibility(node),
                    parent,
                ),
            )
        },
        None => None,
    }
}

/// A function's signature: the first line of its text, trimmed.
pub open spec fn rs_signature(text: Seq<char>) -> Seq<char> {
    match first_line(text) {
        Some(l) => l,
        None => Seq::empty(),
    }
}

pub open spec fn opt_list(o: Option<SymbolView>) -> Seq<SymbolView> {
    match o {
        Some(s) => seq![s],
        None => Seq::empty(),
    }
}

/// The symbols of a Rust syntax tree, in document order: functions (methods
/// inside `impl`, `trait` and named items), structs, enums, traits,
/// constants and statics, type aliases and modules; members are qualified
/// by their enclosing struct, trait, impl type or module.
pub open spec fn rs_walk(node: SyntaxNode, parent: Option<Seq<char>>) -> Seq<SymbolView>
    decreases node, 1int, 0int,
{
    let k = node.kind@;
    let n = node.children@.len() as int;
    if k == "function_item"@ {
        let kind = if parent is Some {
            SymbolKind::Method
        } else {
            SymbolKind::Function
        };
        opt_list(rs_item(node, parent, kind, Some(rs_signature(node.text@)))) + rs_children(
            node,
            parent,
            n,
        )
    } else if k == "struct_item"@ || k == "trait_item"@ {
        let kind = if k == "struct_item"@ {
            SymbolKind::Struct
        } else {
            SymbolKind::Trait
        };
        match rs_item(node, parent, kind, None) {
            Some(s) => seq![s] + rs_children(node, Some(s.name), n),
            None => rs_children(node, parent, n),
        }
    } else if k == "impl_item"@ {
        let ty = match field_child(node, "type"@) {
            Some(i) => Some(node.children@[i].text@),
            None => None,
        };
        rs_children(node, ty, n)
    } else if k == "mod_item"@ {
        match rs_item(node, parent, SymbolKind::Module, None) {
            Some(s) => seq![s] + rs_children(node, Some(s.name), n),
            None => rs_children(node, parent, n),
        }
    } else if k == "enum_item"@ {
        opt_list(rs_item(node, parent, SymbolKind::Enum, None)) + rs_children(node, parent, n)
    } else if k == "const_item"@ || k == "static_item"@ {
        opt_list(rs_item(node, parent, SymbolKind::Constant, None)) + rs_children(node, parent, n)
    } else if k == "type_item"@ {
        opt_list(rs_item(node, parent, SymbolKind::TypeAlias, None)) + rs_children(node, parent, n)
    } else {
        rs_children(node, parent, n)
    }
}

/// The symbols of the first `k` children.
pub open spec fn rs_children(node: SyntaxNode, parent: Option<Seq<char>>, k: int) -> Seq<SymbolView>
    decreases node, 0int, k,
{
    if k <= 0 || k > node.children@.len() {
        Seq::empty()
    } else {
        proof {
            assert(decreases_to!(node => node.children@[k - 1]));
        }
        rs_children(node, parent, k - 1) + rs_walk(node.children@[k - 1], parent)
    }
}

/// The item kinds the walk tells apart are different texts.
proof fn lemma_rust_kind_names_distinct()
    ensures
        "function_item"@ != "struct_item"@,
        "function_item"@ != "trait_item"@,
        "function_item"@ != "impl_item"@,
        "function_item"@ != "mod_item"@,
        "function_item"@ != "enum_item"@,
        "function_item"@ != "const_item"@,
        "function_item"@ != "static_item"@,
        "function_item"@ != "type_item"@,
        "struct_item"@ != "trait_item"@,
        "struct_item"@ != "impl_item"@,
        "struct_item"@ != "mod_item"@,
        "struct_item"@ != "enum_item"@,
        "struct_item"@ != "const_item"@,
        "struct_item"@ != "static_item"@,
        "struct_item"@ != "type_item"@,
        "trait_item"@ != "impl_item"@,
        "trait_item"@ != "mod_item"@,
        "trait_item"@ != "enum_item"@,
        "trait_item"@ != "const_item"@,
        "trait_item"@ != "static_item"@,
        "trait_item"@ != "type_item"@,
        "impl_item"@ != "mod_item"@,
        "impl_item"@ != "enum_item"@,
        "impl_item"@ != "const_item"@,
        "impl_item"@ != "static_item"@,
        "impl_item"@ != "type_item"@,
        "mod_item"@ != "enum_item"@,
        "mod_item"@ != "const_item"@,
        "mod_item"@ != "static_item"@,
        "mod_item"@ != "type_item"@,
        "enum_item"@ != "const_item"@,
        "enum_item"@ != "static_item"@,
        "enum_item"@ != "type_item"@,
        "const_item"@ != "static_item"@,
        "const_item"@ != "type_item"@,
        "static_item"@ != "type_item"@,
{
    reveal_strlit("function_item");
    reveal_strlit("struct_item");
    reveal_strlit("trait_item");
    reveal_strlit("impl_item");
    reveal_strlit("mod_item");
    reveal_strlit("enum_item");
    reveal_strlit("const_item");
    reveal_strlit("static_item");
    reveal_strlit("type_item");
    assert("function_item"@.len() != "struct_item"@.len());
    assert("function_item"@.len() != "trait_item"@.len());
    assert("function_item"@.len() != "impl_item"@.len());
    assert("function_item"@.len() != "mod_item"@.len());
    assert("function_item"@.len() != "enum_item"@.len());
    assert("function_item"@.len() != "const_item"@.len());
    assert("function_item"@.len() != "static_item"@.len());
    assert("function_item"@.len() != "type_item"@.len());
    assert("struct_item"@.len() != "trait_item"@.len());
    assert("struct_item"@.len() != "impl_item"@.len());
    assert("struct_item"@.len() != "mod_item"@.len());
    assert("struct_item"@.len() != "enum_item"@.len());
    assert("struct_item"@.len() != "const_item"@.len());
    assert("struct_item"@[2] != "static_item"@[2]);
    assert("struct_item"@.len() != "type_item"@.len());
    assert("trait_item"@.len() != "impl_item"@.len());
    assert("trait_item"@.len() != "mod_item"@.len());
    assert("trait_item"@.len() != "enum_item"@.len());
    assert("trait_item"@[0] != "const_item"@[0]);
    assert("trait_item"@.len() != "static_item"@.len());
    assert("trait_item"@.len() != "type_item"@.len());
    assert("impl_item"@.len() != "mod_item"@.len());
    assert("impl_item"@[0] != "enum_item"@[0]);
    assert("impl_item"@.len() != "const_item"@.len());
    assert("impl_item"@.len() != "static_item"@.len());
    assert("impl_item"@[0] != "type_item"@[0]);
    assert("mod_item"@.len() != "enum_item"@.len());
    assert("mod_item"@.len() != "const_item"@.len());
    assert("mod_item"@.len() != "static_item"@.len());
    assert("mod_item"@.len() != "type_item"@.len());
    assert("enum_item"@.len() != "const_item"@.len());
    assert("enum_item"@.len() != "static_item"@.len());
    assert("enum_item"@[0] != "type_item"@[0]);
    assert("const_item"@.len() != "static_item"@.len());
    assert("const_item"@.len() != "type_item"@.len());
    assert("static_item"@.len() != "type_item"@.len());
}

/// A named item's own symbol comes first: its name is the `name` field's
/// text and its kind is the one its node kind declares (a function is a
/// method inside a struct, trait, impl or module).
pub proof fn lemma_rust_item_symbol(node: SyntaxNode, parent: Option<Seq<char>>)
    requires
        field_child(node, "name"@) is Some,
    ensures
        ({
            let syms = rs_walk(node, parent);
            let name = node.children@[field_child(node, "name"@)->0].text@;
            let k = node.kind@;
            &&& k == "enum_item"@ ==> syms.len() > 0 && syms[0].kind == SymbolKind::Enum
                && syms[0].name == name
            &&& k == "struct_item"@ ==> syms.len() > 0 && syms[0].kind == SymbolKind::Struct
                && syms[0].name == name
            &&& k == "trait_item"@ ==> syms.len() > 0 && syms[0].kind == SymbolKind::Trait
                && syms[0].name == name
            &&& k == "mod_item"@ ==> syms.len() > 0 && syms[0].kind == SymbolKind::Module
                && syms[0].name == name
            &&& (k == "const_item"@ || k == "static_item"@) ==> syms.len() > 0 && syms[0].kind
                == SymbolKind::Constant && syms[0].name == name
            &&& k == "type_item"@ ==> syms.len() > 0 && syms[0].kind == SymbolKind::TypeAlias
                && syms[0].name == name
            &&& k == "function_item"@ ==> syms.len() > 0 && syms[0].kind == (if parent is Some {
                SymbolKind::Method
            } else {
                SymbolKind::Function
            }) && syms[0].name == name
        }),
{
    lemma_rust_kind_names_distinct();
}

/// Where structs and enums come from: a symbol of kind `Struct` is found
/// only in a tree holding a `struct_item` node, one of kind `Enum` only in
/// a tree holding an `enum_item` node.
pub proof fn lemma_rust_symbol_origins(node: SyntaxNode, parent: Option<Seq<char>>)
    ensures
        forall|j: int|
            0 <= j < rs_walk(node, parent).len() ==> (#[trigger] rs_walk(node, parent)[j].kind
                == SymbolKind::Struct ==> tree_has_kind(node, "struct_item"@)) && (rs_walk(
                node,
                parent,
            )[j].kind == SymbolKind::Enum ==> tree_has_kind(node, "enum_item"@)),
    decreases node, 1int,
{
    let n = node.children@.len() as int;
    let k = node.kind@;
    let syms = rs_walk(node, parent);
    lemma_rust_kind_names_distinct();
    if k == "impl_item"@ {
        let ty = match field_child(node, "type"@) {
            Some(i) => Some(node.children@[i].text@),
            None => None,
        };
        lemma_rust_children_origins(node, ty, n);
    } else if (k == "struct_item"@ || k == "trait_item"@ || k == "mod_item"@) && ({
        let kind = if k == "struct_item"@ {
            SymbolKind::Struct
        } else if k == "trait_item"@ {
            SymbolKind::Trait
        } else {
            SymbolKind::Module
        };
        rs_item(node, parent, kind, None) is Some
    }) {
        let kind = if k == "struct_item"@ {
            SymbolKind::Struct
        } else if k == "trait_item"@ {
            SymbolKind::Trait
        } else {
            SymbolKind::Module
        };
        let s = rs_item(node, parent, kind, None)->0;
        lemma_rust_children_origins(node, Some(s.name), n);
    } else {
        lemma_rust_children_origins(node, parent, n);
    }
}

proof fn lemma_rust_children_origins(node: SyntaxNode, parent: Option<Seq<char>>, m: int)
    ensures
        forall|j: int|
            0 <= j < rs_children(node, parent, m).len() ==> (#[trigger] rs_children(node, parent, m)[j].kind
                == SymbolKind::Struct ==> tree_has_kind(node, "struct_item"@)) && (rs_children(
                node,
                parent,
                m,
            )[j].kind == SymbolKind::Enum ==> tree_has_kind(node, "enum_item"@)),
    decreases node, 0int, m,
{
    if m > 0 && m <= node.children@.len() {
        assert(decreases_to!(node => node.children@[m - 1]));
        lemma_rust_children_origins(node, parent, m - 1);
        lemma_rust_symbol_origins(node.children@[m - 1], parent);
        lemma_children_have_kind_mono(node, "struct_item"@, m, node.children@.len() as int);
        lemma_children_have_kind_mono(node, "enum_item"@, m, node.children@.len() as int);
    }
}

fn rs_item_v(
    node: &SyntaxNode,
    parent: Option<&str>,
    kind: SymbolKind,
    signature: Option<String>,
) -> (r: Option<ExtractedSymbol>)
    ensures
        match (r, rs_item(*node, opt_seq(parent), kind, crate::languages::syntax::text_opt(signature))) {
            (Some(a), Some(b)) => a@ == b,
            (None, None) => true,
            _ => false,
        },
{
    match field_child_v(node, "name") {
        Some(i) => {
            let name = node.children[i].text.clone();
            let qualified = qualify_v(parent, name.as_str(), "::");
            let vis = rs_visibility_v(node);
            Some(make_symbol(node, name, qualified, kind, "rust", signature, vis, own_opt(parent)))
        },
        None => None,
    }
}

fn push_opt(out: &mut Vec<ExtractedSymbol>, s: Option<ExtractedSymbol>)
    ensures
        symbol_views(final(out)@) == symbol_views(old(out)@) + match s {
            Some(x) => seq![x@],
            None => Seq::<SymbolView>::empty(),
        },
{
    let ghost before = symbol_views(out@);
    match s {
        Some(x) => {
            out.push(x);
            assert(symbol_views(out@) =~= before + seq![x@]);
        },
        None => {
            assert(symbol_views(out@) =~= before + Seq::<SymbolView>::empty());
        },
    }
}

fn rs_walk_v(node: &SyntaxNode, parent: Option<&str>, out: &mut Vec<ExtractedSymbol>)
    ensures
        symbol_views(final(out)@) == symbol_views(old(out)@) + rs_walk(*node, opt_seq(parent)),
    decreases *node, 1int,
{
    let ghost p = opt_seq(parent);
    let ghost n = node.children@.len() as int;
    let k = node.kind.as_str();
    let ghost before = symbol_views(out@);
    if crate::text::str_eq(k, "function_item") {
        let kind = if parent.is_some() {
            SymbolKind::Method
        } else {
            SymbolKind::Function
        };
        let sig = match first_line_v(node.text.as_str()) {
            Some(l) => l,
            None => String::new(),
        };
        let item = rs_item_v(node, parent, kind, Some(sig));
        push_opt(out, item);
        rs_children_v(node, parent, out);
        assert(symbol_views(out@) =~= before + rs_walk(*node, p));
    } else if crate::text::str_eq(k, "struct_item") || crate::text::str_eq(k, "trait_item") {
        let kind = if crate::text::str_eq(k, "struct_item") {
            SymbolKind::Struct
        } else {
            SymbolKind::Trait
        };
        match rs_item_v(node, parent, kind, None) {
            Some(sym) => {
                let name = sym.name.clone();
                out.push(sym);
                assert(symbol_views(out@) =~= before + seq![sym@]);
                rs_children_v(node, Some(name.as_str()), out);
                assert(symbol_views(out@) =~= before + rs_walk(*node, p));
            },
            None => {
                rs_children_v(node, parent, out);
            },
        }
    } else if crate::text::str_eq(k, "impl_item") {
        match field_child_v(node, "type") {
            Some(i) => {
                let ty = node.children[i].text.clone();
                rs_children_v(node, Some(ty.as_str()), out);
            },
            None => {
                rs_children_v(node, None, out);
            },
        }
    } else if crate::text::str_eq(k, "mod_item") {
        match rs_item_v(node, parent, SymbolKind::Module, None) {
            Some(sym) => {
                let name = sym.name.clone();
                out.push(sym);
                assert(symbol_views(out@) =~= before + seq![sym@]);
                rs_children_v(node, Some(name.as_str()), out);
                assert(symbol_views(out@) =~= before + rs_walk(*node, p));
            },
            None => {
                rs_children_v(node, parent, out);
            },
        }
    } else {
        let kind_opt = if crate::text::str_eq(k, "enum_item") {
            Some(SymbolKind::Enum)
        } else if crate::text::str_eq(k, "const_item") || crate::text::str_eq(k, "static_item") {
            Some(SymbolKind::Constant)
        } else if crate::text::str_eq(k, "type_item") {
            Some(SymbolKind::TypeAlias)
        } else {
            None
        };
        match kind_opt {
            Some(kind) => {
                let item = rs_item_v(node, parent, kind, None);
                push_opt(out, item);
            },
            None => {},
        }
        rs_children_v(node, parent, out);
        assert(symbol_views(out@) =~= before + rs_walk(*node, p));
    }
}

fn rs_children_v(node: &SyntaxNode, parent: Option<&str>, out: &mut Vec<ExtractedSymbol>)
    ensures
        symbol_views(final(out)@) == symbol_views(old(out)@) + rs_children(
            *node,
            opt_seq(parent),
            node.children@.len() as int,
        ),
    decreases *node, 0int,
{
    let ghost before = symbol_views(out@);
    let mut i: usize = 0;
    while i < node.children.len()
        invariant
            i <= node.children@.len(),
            symbol_views(out@) == before + rs_children(*node, opt_seq(parent), i as int),
        decreases node.children.len() - i,
    {
        assert(decreases_to!(*node => node.children@[i as int]));
        rs_walk_v(&node.children[i], parent, out);
        assert(symbol_views(out@) =~= before + rs_children(*node, opt_seq(parent), i + 1));
        i = i + 1;
    }
}

/// Extract the symbols of a Rust syntax tree.
pub fn extract(root: &SyntaxNode) -> (r: Vec<ExtractedSymbol>)
    ensures
        symbol_views(r@) == rs_walk(*root, None),
{
    let mut out: Vec<ExtractedSymbol> = Vec::new();
    rs_walk_v(root, None, &mut out);
    assert(symbol_views(out@) =~= Seq::<SymbolView>::empty() + rs_walk(*root, None));
    out
}

} // verus!
