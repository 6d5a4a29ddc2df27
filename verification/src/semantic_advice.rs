//! What the semantic profile advisor is asked: the number of indexed files
//! per language of a ref, and their total.

use vstd::prelude::*;
use crate::text::{ascii_lower, ascii_lower_v, chars_of, eq_v, str_eq, trim, trim_v};

verus! {

/// The latency the advisor is asked to aim for, in milliseconds.
pub const ADVISOR_TARGET_LATENCY_MS: u64 = 200;

/// The question put to the semantic profile advisor.
#[derive(Debug)]
pub struct SemanticAdvisorInput {
    pub file_count: usize,
    /// Each language once, with its number of files.
    pub language_counts: Vec<(String, usize)>,
    pub target_latency_ms: u64,
}

/// The advisor is consulted when its mode is `suggest`, in any letter case.
pub open spec fn advisor_suggests(mode: Seq<char>) -> bool {
    ascii_lower(mode) == "suggest"@
}

/// The language a manifest row is counted under: blank names count as
/// `unknown`.
pub open spec fn language_label(language: Seq<char>) -> Seq<char> {
    if trim(language).len() == 0 {
        "unknown"@
    } else {
        language
    }
}

/// A row's file count, negative counts taken as zero.
pub open spec fn clamped_count(count: i64) -> nat {
    if count < 0 {
        0
    } else {
        count as nat
    }
}

pub open spec fn rows_view(rows: Seq<(String, i64)>) -> Seq<(Seq<char>, i64)> {
    rows.map_values(|r: (String, i64)| (r.0@, r.1))
}

/// The total number of files over the rows.
pub open spec fn rows_total(rows: Seq<(Seq<char>, i64)>) -> nat
    decreases rows.len(),
{
    if rows.len() == 0 {
        0
    } else {
        rows_total(rows.drop_last()) + clamped_count(rows.last().1)
    }
}

/// The count per language; a later row of the same language replaces an
/// earlier one.
pub open spec fn language_counts(rows: Seq<(Seq<char>, i64)>) -> Map<Seq<char>, nat>
    decreases rows.len(),
{
    if rows.len() == 0 {
        Map::empty()
    } else {
        language_counts(rows.drop_last()).insert(
            language_label(rows.last().0),
            clamped_count(rows.last().1),
        )
    }
}

proof fn lemma_rows_total_prefix(rows: Seq<(Seq<char>, i64)>, i: int)
    requires
        0 <= i <= rows.len(),
    ensures
        rows_total(rows.take(i)) <= rows_total(rows),
    decreases rows.len(),
{
    if i == rows.len() {
        assert(rows.take(i) =~= rows);
    } else {
        let d = rows.drop_last();
        lemma_rows_total_prefix(d, i);
        assert(d.take(i) =~= rows.take(i));
    }
}

fn language_label_v(language: &str) -> (r: String)
    ensures
        r@ == language_label(language@),
{
    let t = trim_v(&chars_of(language));
    if t.len() == 0 {
        proof {
            reveal_strlit("unknown");
        }
        "unknown".to_owned()
    } else {
        language.to_owned()
    }
}

fn position_of(out: &Vec<(String, usize)>, key: &str) -> (r: Option<usize>)
    ensures
        match r {
            Some(j) => j < out@.len() && out@[j as int].0@ == key@,
            None => forall|j: int| 0 <= j < out@.len() ==> out@[j].0@ != key@,
        },
{
    let mut j: usize = 0;
    while j < out.len()
        invariant
            j <= out.len(),
            forall|k: int| 0 <= k < j ==> out@[k].0@ != key@,
        decreases out.len() - j,
    {
        if str_eq(out[j].0.as_str(), key) {
            return Some(j);
        }
        j = j + 1;
    }
    None
}

/// The advisor's question from the manifest's per-language rows: `None` when
/// the advisor is not in `suggest` mode or no file is indexed.
pub fn semantic_advisor_input(advisor_mode: &str, rows: &Vec<(String, i64)>) -> (r: Option<
    SemanticAdvisorInput,
>)
    requires
        advisor_suggests(advisor_mode@) ==> rows_total(rows_view(rows@)) <= usize::MAX,
    ensures
        r is None <==> (!advisor_suggests(advisor_mode@) || rows_total(rows_view(rows@)) == 0),
        match r {
            Some(input) => {
                let m = language_counts(rows_view(rows@));
                let lc = input.language_counts@;
                &&& input.file_count == rows_total(rows_view(rows@))
                &&& input.target_latency_ms == ADVISOR_TARGET_LATENCY_MS
                &&& forall|i: int, j: int| 0 <= i < j < lc.len() ==> lc[i].0@ != lc[j].0@
                &&& forall|i: int|
                    0 <= i < lc.len() ==> m.contains_key(#[trigger] lc[i].0@) && m[lc[i].0@]
                        == lc[i].1
                &&& forall|k: Seq<char>|
                    m.contains_key(k) ==> exists|i: int| 0 <= i < lc.len() && #[trigger] lc[i].0@ == k
            },
            None => true,
        },
{
    let lowered = ascii_lower_v(&chars_of(advisor_mode));
    proof {
        reveal_strlit("suggest");
    }
    if !eq_v(&lowered, &chars_of("suggest")) {
        return None;
    }
    let ghost rv = rows_view(rows@);
    let mut out: Vec<(String, usize)> = Vec::new();
    let mut total: usize = 0;
    let mut i: usize = 0;
    while i < rows.len()
        invariant
            i <= rows.len(),
            rv == rows_view(rows@),
            rows_total(rv) <= usize::MAX,
            total == rows_total(rv.take(i as int)),
            forall|a: int, b: int| 0 <= a < b < out@.len() ==> out@[a].0@ != out@[b].0@,
            forall|a: int|
                0 <= a < out@.len() ==> language_counts(rv.take(i as int)).contains_key(
                    #[trigger] out@[a].0@,
                ) && language_counts(rv.take(i as int))[out@[a].0@] == out@[a].1,
            forall|k: Seq<char>|
                language_counts(rv.take(i as int)).contains_key(k) ==> exists|a: int|
                    0 <= a < out@.len() && #[trigger] out@[a].0@ == k,
        decreases rows.len() - i,
    {
        let ghost pre = rv.take(i as int);
        let ghost post = rv.take(i + 1);
        assert(post.drop_last() =~= pre);
        assert(post.last() == rv[i as int]);
        let label = language_label_v(rows[i].0.as_str());
        let raw = rows[i].1;
        proof {
            lemma_rows_total_prefix(rv, i + 1);
        }
        let c: usize = if raw < 0 {
            0
        } else {
            raw as usize
        };
        total = total + c;
        let ghost m_pre = language_counts(pre);
        let ghost m_post = language_counts(post);
        assert(m_post == m_pre.insert(label@, c as nat));
        let ghost old_out = out@;
        match position_of(&out, label.as_str()) {
            Some(j) => {
                out.set(j, (label, c));
                assert forall|k: Seq<char>| m_post.contains_key(k) implies exists|a: int|
                    0 <= a < out@.len() && #[trigger] out@[a].0@ == k by {
                    if k == out@[j as int].0@ {
                        assert(out@[j as int].0@ == k);
                    } else {
                        assert(m_pre.contains_key(k));
                        let a = choose|a: int| 0 <= a < old_out.len() && #[trigger] old_out[a].0@ == k;
                        assert(out@[a].0@ == k);
                    }
                }
            },
            None => {
                out.push((label, c));
                assert forall|k: Seq<char>| m_post.contains_key(k) implies exists|a: int|
                    0 <= a < out@.len() && #[trigger] out@[a].0@ == k by {
                    if k == out@[old_out.len() as int].0@ {
                        assert(out@[old_out.len() as int].0@ == k);
                    } else {
                        assert(m_pre.contains_key(k));
                        let a = choose|a: int| 0 <= a < old_out.len() && #[trigger] old_out[a].0@ == k;
                        assert(out@[a].0@ == k);
                    }
                }
            },
        }
        i = i + 1;
    }
    assert(rv.take(rows.len() as int) =~= rv);
    if total == 0 {
        return None;
    }
    Some(
        SemanticAdvisorInput {
            file_count: total,
            language_counts: out,
            target_latency_ms: ADVISOR_TARGET_LATENCY_MS,
        },
    )
}

} // verus!
