//! The order of text values (the order of `String`) and sorting by it.

use vstd::prelude::*;
use crate::text::chars_of;

verus! {

/// `a` sorts no later than `b`: lexicographic order of the characters by
/// code point. This is the order of `String`, whose UTF-8 bytes compare the
/// same way.
pub open spec fn text_le(a: Seq<char>, b: Seq<char>) -> bool
    decreases a.len(),
{
    if a.len() == 0 {
        true
    } else if b.len() == 0 {
        false
    } else if a[0] != b[0] {
        (a[0] as int) < (b[0] as int)
    } else {
        text_le(a.drop_first(), b.drop_first())
    }
}

/// Any two texts are ordered one way or the other.
pub proof fn lemma_text_le_total(a: Seq<char>, b: Seq<char>)
    ensures
        text_le(a, b) || text_le(b, a),
    decreases a.len(),
{
    if a.len() > 0 && b.len() > 0 && a[0] == b[0] {
        lemma_text_le_total(a.drop_first(), b.drop_first());
    }
}

/// The order is transitive.
pub proof fn lemma_text_le_transitive(a: Seq<char>, b: Seq<char>, c: Seq<char>)
    requires
        text_le(a, b),
        text_le(b, c),
    ensures
        text_le(a, c),
    decreases a.len(),
{
    if a.len() > 0 && b.len() > 0 && c.len() > 0 && a[0] == b[0] && b[0] == c[0] {
        lemma_text_le_transitive(a.drop_first(), b.drop_first(), c.drop_first());
    }
}

/// Whether `a` sorts no later than `b`.
pub fn text_le_v(a: &str, b: &str) -> (r: bool)
    ensures
        r == text_le(a@, b@),
{
    let x = chars_of(a);
    let y = chars_of(b);
    let mut i: usize = 0;
    assert(x@.skip(0) =~= x@);
    assert(y@.skip(0) =~= y@);
    while i < x.len() && i < y.len()
        invariant
            i <= x@.len(),
            i <= y@.len(),
            x@ == a@,
            y@ == b@,
            text_le(a@, b@) == text_le(x@.skip(i as int), y@.skip(i as int)),
        decreases x.len() - i,
    {
        let ghost xs = x@.skip(i as int);
        let ghost ys = y@.skip(i as int);
        assert(xs[0] == x@[i as int]);
        assert(ys[0] == y@[i as int]);
        if x[i] != y[i] {
            return x[i] < y[i];
        }
        assert(xs.drop_first() =~= x@.skip(i + 1));
        assert(ys.drop_first() =~= y@.skip(i + 1));
        i = i + 1;
    }
    i == x.len()
}

/// Names sorted by the order of `String`; names that sort the same keep
/// their order.
pub fn sort_names(names: Vec<String>) -> (r: Vec<String>)
    ensures
        r@.to_multiset() == names@.to_multiset(),
        forall|i: int, j: int| 0 <= i < j < r@.len() ==> text_le(r@[i]@, r@[j]@),
{
    let ghost all = names@;
    let total = names.len();
    assert(all.len() == total);
    let mut rest = names;
    // `remaining` holds the names still to place, the next one last.
    let mut remaining: Vec<String> = Vec::new();
    while rest.len() > 0
        invariant
            rest@ + remaining@.reverse() == all,
            all.len() <= usize::MAX,
        decreases rest.len(),
    {
        let ghost r0 = rest@;
        let ghost m0 = remaining@;
        let n = rest.pop().unwrap();
        remaining.push(n);
        assert(remaining@.reverse() =~= seq![n] + m0.reverse());
        assert(rest@ + remaining@.reverse() =~= r0 + m0.reverse());
    }
    assert(remaining@.reverse() =~= all);
    let mut out: Vec<String> = Vec::new();
    let mut taken: usize = 0;
    assert(out@ =~= all.take(0));
    while remaining.len() > 0
        invariant
            taken + remaining@.len() == all.len(),
            all.len() <= usize::MAX,
            remaining@.reverse() == all.skip(taken as int),
            out@.to_multiset() == all.take(taken as int).to_multiset(),
            forall|i: int, j: int| 0 <= i < j < out@.len() ==> text_le(out@[i]@, out@[j]@),
        decreases remaining.len(),
    {
        let ghost before = remaining@;
        let name = remaining.pop().unwrap();
        assert(name == all[taken as int]) by {
            assert(before.reverse()[0] == before[before.len() - 1]);
        }
        assert(remaining@.reverse() =~= all.skip(taken + 1)) by {
            assert forall|k: int| 0 <= k < remaining@.len() implies remaining@.reverse()[k] == all.skip(
                taken + 1,
            )[k] by {
                assert(remaining@.reverse()[k] == before.reverse()[k + 1]);
            }
        }
        let mut p: usize = 0;
        while p < out.len() && text_le_v(out[p].as_str(), name.as_str())
            invariant
                p <= out@.len(),
                forall|k: int| 0 <= k < p ==> text_le(#[trigger] out@[k]@, name@),
            decreases out.len() - p,
        {
            p = p + 1;
        }
        let ghost old_out = out@;
        proof {
            if p < old_out.len() {
                assert(!text_le(old_out[p as int]@, name@));
                lemma_text_le_total(old_out[p as int]@, name@);
                assert forall|k: int| p <= k < old_out.len() implies text_le(name@, #[trigger] old_out[k]@) by {
                    if k > p {
                        lemma_text_le_transitive(name@, old_out[p as int]@, old_out[k]@);
                    }
                }
            }
        }
        out.insert(p, name);
        proof {
            vstd::seq_lib::to_multiset_insert(old_out, p as int, name);
            assert(all.take(taken + 1) =~= all.take(taken as int).push(name));
            vstd::seq_lib::to_multiset_build(all.take(taken as int), name);
            assert forall|i: int, j: int| 0 <= i < j < out@.len() implies text_le(out@[i]@, out@[j]@) by {
                if j < p {
                    assert(out@[i] == old_out[i] && out@[j] == old_out[j]);
                } else if j == p {
                    assert(out@[i] == old_out[i]);
                } else if i == p {
                    assert(out@[j] == old_out[j - 1]);
                } else if i < p {
                    assert(out@[i] == old_out[i] && out@[j] == old_out[j - 1]);
                    lemma_text_le_transitive(old_out[i]@, name@, old_out[j - 1]@);
                } else {
                    assert(out@[i] == old_out[i - 1] && out@[j] == old_out[j - 1]);
                }
            }
        }
        taken = taken + 1;
    }
    assert(all.take(all.len() as int) =~= all);
    out
}

} // verus!
