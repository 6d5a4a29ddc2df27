//! Unix path text: components (`Path::components`), prefix tests
//! (`Path::starts_with`) and joining (`Path::join`).

use vstd::prelude::*;
use crate::text::{chars_of, concat, eq_v, ends_with, ends_with_v, split, split_v, starts_with, starts_with_v, views};

verus! {

/// Path segments that name something: not empty and not `.`.
pub open spec fn named_segments_from(segs: Seq<Seq<char>>, k: int) -> Seq<Seq<char>>
    decreases segs.len() - k,
{
    if k < 0 || k >= segs.len() {
        Seq::empty()
    } else if segs[k].len() > 0 && segs[k] != "."@ {
        seq![segs[k]] + named_segments_from(segs, k + 1)
    } else {
        named_segments_from(segs, k + 1)
    }
}

/// The components of a `/`-separated path, as `Path::components` yields them
/// rendered to text, without `.` components: `/` for the root, then every
/// non-empty segment.
pub open spec fn named_components(p: Seq<char>) -> Seq<Seq<char>> {
    (if starts_with(p, "/"@) {
        seq!["/"@]
    } else {
        Seq::empty()
    }) + named_segments_from(split(p, "/"@), 0)
}

pub fn named_segments_v(segs: &Vec<Vec<char>>) -> (r: Vec<Vec<char>>)
    ensures
        views(r@) == named_segments_from(views(segs@), 0),
{
    let dot = chars_of(".");
    let mut out: Vec<Vec<char>> = Vec::new();
    let mut k: usize = 0;
    while k < segs.len()
        invariant
            dot@ == "."@,
            k <= segs.len(),
            views(out@) + named_segments_from(views(segs@), k as int) == named_segments_from(
                views(segs@),
                0,
            ),
        decreases segs.len() - k,
    {
        assert(views(segs@)[k as int] == segs@[k as int]@);
        if segs[k].len() > 0 && !eq_v(&segs[k], &dot) {
            let ghost before = views(out@);
            out.push(segs[k].clone());
            assert(views(out@) =~= before.push(segs@[k as int]@));
            assert(before + named_segments_from(views(segs@), k as int) =~= views(out@)
                + named_segments_from(views(segs@), k + 1));
        }
        k = k + 1;
    }
    assert(views(out@) + named_segments_from(views(segs@), k as int) =~= views(out@));
    out
}

/// `Path::components` rendered to text: `/` for a root, `.` for a leading
/// current-directory component, then every segment that is neither empty nor
/// `.`.
pub open spec fn std_components(p: Seq<char>) -> Seq<Seq<char>> {
    let segs = split(p, "/"@);
    (if starts_with(p, "/"@) {
        seq!["/"@]
    } else if segs[0] == "."@ {
        seq!["."@]
    } else {
        Seq::empty()
    }) + named_segments_from(segs, 0)
}

/// `Path::starts_with`: the components of `base` are a prefix of those of
/// `path`, so `/a/bc` does not start with `/a/b`.
pub open spec fn path_starts_with(path: Seq<char>, base: Seq<char>) -> bool {
    let pc = std_components(path);
    let bc = std_components(base);
    bc.len() <= pc.len() && pc.take(bc.len() as int) == bc
}

/// `Path::join` for `/`-separated text: an absolute `comp` replaces `base`,
/// otherwise a separator is inserted unless `base` is empty or already ends
/// with one.
pub open spec fn path_join(base: Seq<char>, comp: Seq<char>) -> Seq<char> {
    if starts_with(comp, "/"@) {
        comp
    } else if base.len() == 0 || ends_with(base, "/"@) {
        base + comp
    } else {
        base + "/"@ + comp
    }
}

pub fn std_components_v(p: &Vec<char>) -> (r: Vec<Vec<char>>)
    ensures
        views(r@) == std_components(p@),
{
    let slash = chars_of("/");
    let dot = chars_of(".");
    proof {
        reveal_strlit("/");
    }
    let segs = split_v(p, &slash);
    let named = named_segments_v(&segs);
    let mut comps: Vec<Vec<char>> = Vec::new();
    proof {
        crate::text::lemma_split_nonempty(p@, slash@);
    }
    assert(views(segs@)[0] == segs@[0]@);
    if starts_with_v(p, &slash) {
        comps.push(slash.clone());
        assert(views(comps@) =~= seq!["/"@]);
    } else if eq_v(&segs[0], &dot) {
        comps.push(dot.clone());
        assert(views(comps@) =~= seq!["."@]);
    } else {
        assert(views(comps@) =~= Seq::<Seq<char>>::empty());
    }
    let ghost head = views(comps@);
    let mut k: usize = 0;
    while k < named.len()
        invariant
            k <= named.len(),
            views(comps@) == head + views(named@).take(k as int),
        decreases named.len() - k,
    {
        let ghost before = views(comps@);
        comps.push(named[k].clone());
        assert(views(comps@) =~= before.push(named@[k as int]@));
        assert(views(named@).take(k + 1) =~= views(named@).take(k as int).push(
            named@[k as int]@,
        ));
        k = k + 1;
    }
    assert(views(named@).take(named.len() as int) =~= views(named@));
    comps
}

/// `Path::starts_with` on path text.
pub fn path_starts_with_v(path: &Vec<char>, base: &Vec<char>) -> (r: bool)
    ensures
        r == path_starts_with(path@, base@),
{
    let pc = std_components_v(path);
    let bc = std_components_v(base);
    if bc.len() > pc.len() {
        return false;
    }
    let mut k: usize = 0;
    while k < bc.len()
        invariant
            bc.len() <= pc.len(),
            k <= bc.len(),
            views(pc@) == std_components(path@),
            views(bc@) == std_components(base@),
            forall|j: int| 0 <= j < k ==> views(pc@)[j] == views(bc@)[j],
        decreases bc.len() - k,
    {
        assert(views(pc@)[k as int] == pc@[k as int]@);
        assert(views(bc@)[k as int] == bc@[k as int]@);
        if !eq_v(&pc[k], &bc[k]) {
            assert(views(pc@).take(bc.len() as int)[k as int] == views(pc@)[k as int]);
            assert(views(pc@).take(bc.len() as int) != views(bc@));
            return false;
        }
        k = k + 1;
    }
    assert(views(pc@).take(bc.len() as int) =~= views(bc@));
    true
}

/// `Path::join` on path text.
pub fn path_join_v(base: &Vec<char>, comp: &Vec<char>) -> (r: Vec<char>)
    ensures
        r@ == path_join(base@, comp@),
{
    let slash = chars_of("/");
    if starts_with_v(comp, &slash) {
        comp.clone()
    } else if base.len() == 0 || ends_with_v(base, &slash) {
        concat(base, comp)
    } else {
        let with_sep = concat(base, &slash);
        concat(&with_sep, comp)
    }
}

// ---------------------------------------------------------------------------
// `Path::parent`
// ---------------------------------------------------------------------------

pub open spec fn has_root(p: Seq<char>) -> bool {
    p.len() > 0 && p[0] == '/'
}

/// A relative path that starts with a `.` component.
pub open spec fn leading_cur_dir(p: Seq<char>) -> bool {
    !has_root(p) && p.len() > 0 && p[0] == '.' && (p.len() == 1 || p[1] == '/')
}

/// Where the components after the root or leading `.` begin.
pub open spec fn body_start(p: Seq<char>) -> int {
    if has_root(p) || leading_cur_dir(p) {
        1
    } else {
        0
    }
}

/// The last `/` at or before `i`, not before `start`.
pub open spec fn sep_back(p: Seq<char>, start: int, i: int) -> Option<int>
    decreases i - start + 1,
{
    if i < start || i < 0 || i >= p.len() {
        None
    } else if p[i] == '/' {
        Some(i)
    } else {
        sep_back(p, start, i - 1)
    }
}

/// The length left once the last component (with its separator) is taken
/// off the end.
pub open spec fn back_cut(p: Seq<char>) -> int {
    match sep_back(p, body_start(p), p.len() - 1) {
        Some(i) => i,
        None => body_start(p),
    }
}

/// The last component's text.
pub open spec fn back_comp(p: Seq<char>) -> Seq<char> {
    match sep_back(p, body_start(p), p.len() - 1) {
        Some(i) => p.subrange(i + 1, p.len() as int),
        None => p.subrange(body_start(p), p.len() as int),
    }
}

/// A component that `Path::components` yields: neither empty nor `.`.
pub open spec fn real_comp(c: Seq<char>) -> bool {
    c.len() > 0 && c != "."@
}

pub proof fn lemma_sep_back_range(p: Seq<char>, start: int, i: int)
    requires
        i < p.len(),
    ensures
        sep_back(p, start, i) matches Some(j) ==> start <= j <= i && 0 <= j < p.len() && p[j]
            == '/',
        sep_back(p, start, i) is None ==> forall|j: int|
            start <= j <= i && 0 <= j < p.len() ==> p[j] != '/',
    decreases i - start + 1,
{
    if !(i < start || i < 0 || i >= p.len()) && p[i] != '/' {
        lemma_sep_back_range(p, start, i - 1);
    }
}

pub proof fn lemma_back_cut_shorter(p: Seq<char>)
    requires
        p.len() > body_start(p),
    ensures
        body_start(p) <= back_cut(p) < p.len(),
{
    lemma_sep_back_range(p, body_start(p), p.len() - 1);
}

/// What is left after the last real component is taken off, or `None` when
/// the path has no real component.
pub open spec fn pop_back(p: Seq<char>) -> Option<Seq<char>>
    decreases p.len(),
{
    if p.len() > body_start(p) {
        proof {
            lemma_back_cut_shorter(p);
        }
        let rest = p.take(back_cut(p));
        if real_comp(back_comp(p)) {
            Some(rest)
        } else {
            pop_back(rest)
        }
    } else {
        None
    }
}

/// The path with trailing separators and `.` components taken off.
pub open spec fn trim_back(p: Seq<char>) -> Seq<char>
    decreases p.len(),
{
    if p.len() > body_start(p) {
        proof {
            lemma_back_cut_shorter(p);
        }
        if real_comp(back_comp(p)) {
            p
        } else {
            trim_back(p.take(back_cut(p)))
        }
    } else {
        p
    }
}

/// `Path::parent` on path text: the path without its last component and
/// the separators before it; `None` for the root and the empty path, and
/// the empty path for a lone `.`.
pub open spec fn path_parent(p: Seq<char>) -> Option<Seq<char>> {
    match pop_back(p) {
        Some(rest) => Some(trim_back(rest)),
        None => if leading_cur_dir(p) {
            Some(Seq::empty())
        } else {
            None
        },
    }
}

fn body_start_v(p: &Vec<char>, len: usize) -> (r: usize)
    requires
        len <= p.len(),
    ensures
        r as int == body_start(p@.take(len as int)),
{
    let ghost q = p@.take(len as int);
    if len > 0 && p[0] == '/' {
        1
    } else if len > 0 && p[0] == '.' && (len == 1 || p[1] == '/') {
        assert(q[0] == p@[0]);
        1
    } else {
        if len > 1 {
            assert(q[1] == p@[1]);
        }
        0
    }
}

/// The cut and whether the last component is real, for `p[..len]`.
fn back_step_v(p: &Vec<char>, len: usize) -> (r: (usize, bool))
    requires
        len <= p.len(),
        len as int > body_start(p@.take(len as int)),
    ensures
        r.0 as int == back_cut(p@.take(len as int)),
        r.1 == real_comp(back_comp(p@.take(len as int))),
{
    let ghost q = p@.take(len as int);
    let start = body_start_v(p, len);
    let mut i: usize = len;
    while i > start
        invariant
            start as int == body_start(q),
            start <= i <= len,
            q == p@.take(len as int),
            len <= p.len(),
            sep_back(q, start as int, len - 1) == sep_back(q, start as int, i - 1),
        decreases i,
    {
        if p[i - 1] == '/' {
            assert(q[i - 1] == '/');
            let cut = i - 1;
            let comp_len = len - i;
            let is_real = comp_len > 0 && !(comp_len == 1 && p[i] == '.');
            proof {
                let c = q.subrange(i as int, len as int);
                assert(c.len() == comp_len);
                if comp_len == 1 {
                    assert(c[0] == p@[i as int]);
                    reveal_strlit(".");
                    if p@[i as int] == '.' {
                        assert(c =~= "."@);
                    } else {
                        assert(c[0] != "."@[0]);
                    }
                } else if comp_len > 1 {
                    reveal_strlit(".");
                    assert(c.len() != "."@.len());
                }
            }
            return (cut, is_real);
        }
        assert(q[i - 1] != '/');
        i = i - 1;
    }
    let comp_len = len - start;
    let is_real = comp_len > 0 && !(comp_len == 1 && p[start] == '.');
    proof {
        let c = q.subrange(start as int, len as int);
        assert(c.len() == comp_len);
        reveal_strlit(".");
        if comp_len == 1 {
            assert(c[0] == p@[start as int]);
            if p@[start as int] == '.' {
                assert(c =~= "."@);
            } else {
                assert(c[0] != "."@[0]);
            }
        } else if comp_len > 1 {
            assert(c.len() != "."@.len());
        }
    }
    (start, is_real)
}

/// Length of what `pop_back` leaves of `p[..len]`.
fn pop_back_len(p: &Vec<char>, len: usize) -> (r: Option<usize>)
    requires
        len <= p.len(),
    ensures
        match r {
            Some(l) => l <= len && pop_back(p@.take(len as int)) == Some(p@.take(l as int)),
            None => pop_back(p@.take(len as int)) is None,
        },
    decreases len,
{
    let ghost q = p@.take(len as int);
    let start = body_start_v(p, len);
    if len <= start {
        assert(pop_back(q) is None);
        return None;
    }
    let (cut, is_real) = back_step_v(p, len);
    proof {
        lemma_back_cut_shorter(q);
        assert(q.take(cut as int) =~= p@.take(cut as int));
    }
    if is_real {
        assert(pop_back(q) == Some(q.take(cut as int)));
        return Some(cut);
    }
    assert(pop_back(q) == pop_back(q.take(cut as int)));
    pop_back_len(p, cut)
}

/// Length of what `trim_back` leaves of `p[..len]`.
fn trim_back_len(p: &Vec<char>, len: usize) -> (r: usize)
    requires
        len <= p.len(),
    ensures
        r <= len,
        trim_back(p@.take(len as int)) == p@.take(r as int),
    decreases len,
{
    let ghost q = p@.take(len as int);
    let start = body_start_v(p, len);
    if len <= start {
        return len;
    }
    let (cut, is_real) = back_step_v(p, len);
    if is_real {
        return len;
    }
    proof {
        lemma_back_cut_shorter(q);
        assert(q.take(cut as int) =~= p@.take(cut as int));
    }
    assert(trim_back(q) == trim_back(q.take(cut as int)));
    trim_back_len(p, cut)
}

/// `Path::parent` on path text.
pub fn path_parent_v(p: &Vec<char>) -> (r: Option<Vec<char>>)
    ensures
        match (r, path_parent(p@)) {
            (Some(a), Some(b)) => a@ == b,
            (None, None) => true,
            _ => false,
        },
{
    assert(p@.take(p.len() as int) =~= p@);
    match pop_back_len(p, p.len()) {
        None => {
            let lead = p.len() > 0 && p[0] == '.' && (p.len() == 1 || p[1] == '/');
            if lead {
                Some(Vec::new())
            } else {
                None
            }
        },
        Some(len) => {
            let keep = trim_back_len(p, len);
            let mut out: Vec<char> = Vec::new();
            let mut i: usize = 0;
            while i < keep
                invariant
                    i <= keep <= p.len(),
                    out@ == p@.take(i as int),
                decreases keep - i,
            {
                out.push(p[i]);
                i = i + 1;
                assert(out@ =~= p@.take(i as int));
            }
            Some(out)
        },
    }
}

/// `Path`'s `==`: the same components.
pub open spec fn same_path(a: Seq<char>, b: Seq<char>) -> bool {
    std_components(a) == std_components(b)
}

pub fn same_path_v(a: &Vec<char>, b: &Vec<char>) -> (r: bool)
    ensures
        r == same_path(a@, b@),
{
    let ca = std_components_v(a);
    let cb = std_components_v(b);
    if ca.len() != cb.len() {
        assert(views(ca@).len() != views(cb@).len());
        return false;
    }
    let mut k: usize = 0;
    while k < ca.len()
        invariant
            ca.len() == cb.len(),
            k <= ca.len(),
            views(ca@) == std_components(a@),
            views(cb@) == std_components(b@),
            forall|j: int| 0 <= j < k ==> views(ca@)[j] == views(cb@)[j],
        decreases ca.len() - k,
    {
        assert(views(ca@)[k as int] == ca@[k as int]@);
        assert(views(cb@)[k as int] == cb@[k as int]@);
        if !eq_v(&ca[k], &cb[k]) {
            assert(views(ca@)[k as int] != views(cb@)[k as int]);
            return false;
        }
        k = k + 1;
    }
    assert(views(ca@) =~= views(cb@));
    true
}

} // verus!
