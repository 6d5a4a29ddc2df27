//! Character-sequence helpers shared by the rest of the crate.
//!
//! Every string operation the library relies on (trimming, searching,
//! splitting, prefix and suffix stripping, replacement) is stated here as a
//! spec function over `Seq<char>` and implemented by a verified executable
//! function over `Vec<char>`.

use vstd::prelude::*;

verus! {

/// `String::push` appends one character.
pub assume_specification[ String::push ](s: &mut String, ch: char)
    ensures
        final(s)@ == old(s)@.push(ch),
;

// ---------------------------------------------------------------------------
// Spec vocabulary
// ---------------------------------------------------------------------------

/// Unicode `White_Space`, the set used by `char::is_whitespace`, `str::trim`
/// and `str::split_whitespace`.
pub open spec fn is_ws(c: char) -> bool {
    ||| ('\u{9}' <= c && c <= '\u{d}')
    ||| c == ' '
    ||| c == '\u{85}'
    ||| c == '\u{a0}'
    ||| c == '\u{1680}'
    ||| ('\u{2000}' <= c && c <= '\u{200a}')
    ||| c == '\u{2028}'
    ||| c == '\u{2029}'
    ||| c == '\u{202f}'
    ||| c == '\u{205f}'
    ||| c == '\u{3000}'
}

pub open spec fn trim_start(s: Seq<char>) -> Seq<char>
    decreases s.len(),
{
    if s.len() > 0 && is_ws(s[0]) {
        trim_start(s.drop_first())
    } else {
        s
    }
}

pub open spec fn trim_end(s: Seq<char>) -> Seq<char>
    decreases s.len(),
{
    if s.len() > 0 && is_ws(s.last()) {
        trim_end(s.drop_last())
    } else {
        s
    }
}

/// `str::trim`: leading and trailing white space removed.
pub open spec fn trim(s: Seq<char>) -> Seq<char> {
    trim_end(trim_start(s))
}

pub open spec fn starts_with(s: Seq<char>, p: Seq<char>) -> bool {
    p.len() <= s.len() && s.take(p.len() as int) == p
}

pub open spec fn ends_with(s: Seq<char>, p: Seq<char>) -> bool {
    p.len() <= s.len() && s.skip(s.len() - p.len()) == p
}

/// `p` occurs in `s` at position `i`.
pub open spec fn occurs_at(s: Seq<char>, p: Seq<char>, i: int) -> bool {
    0 <= i && i + p.len() <= s.len() && s.subrange(i, i + p.len()) == p
}

/// First occurrence of `p` in `s` at a position `>= i`.
pub open spec fn find_from(s: Seq<char>, p: Seq<char>, i: int) -> Option<int>
    decreases s.len() - i,
{
    if i < 0 || i + p.len() > s.len() {
        None
    } else if occurs_at(s, p, i) {
        Some(i)
    } else if i >= s.len() {
        None
    } else {
        find_from(s, p, i + 1)
    }
}

/// `str::find`.
pub open spec fn find(s: Seq<char>, p: Seq<char>) -> Option<int> {
    find_from(s, p, 0)
}

/// Last occurrence of `p` in `s` at a position `<= i`.
pub open spec fn rfind_upto(s: Seq<char>, p: Seq<char>, i: int) -> Option<int>
    decreases i + 1,
{
    if i < 0 {
        None
    } else if occurs_at(s, p, i) {
        Some(i)
    } else {
        rfind_upto(s, p, i - 1)
    }
}

/// `str::rfind`.
pub open spec fn rfind(s: Seq<char>, p: Seq<char>) -> Option<int> {
    rfind_upto(s, p, s.len() - p.len())
}

/// `str::split_once`.
pub open spec fn split_once(s: Seq<char>, p: Seq<char>) -> Option<(Seq<char>, Seq<char>)> {
    match find(s, p) {
        Some(i) => Some((s.take(i), s.skip(i + p.len()))),
        None => None,
    }
}

/// `s.split(p).next().unwrap()`: the text before the first occurrence.
pub open spec fn before_first(s: Seq<char>, p: Seq<char>) -> Seq<char> {
    match find(s, p) {
        Some(i) => s.take(i),
        None => s,
    }
}

/// `s.rsplit(p).next().unwrap()`: the text after the last occurrence.
pub open spec fn after_last(s: Seq<char>, p: Seq<char>) -> Seq<char> {
    match rfind(s, p) {
        Some(i) => s.skip(i + p.len()),
        None => s,
    }
}

/// `str::split` with a non-empty pattern.
pub open spec fn split(s: Seq<char>, p: Seq<char>) -> Seq<Seq<char>>
    decreases s.len(),
{
    if p.len() == 0 {
        seq![s]
    } else {
        match find(s, p) {
            Some(i) => if 0 <= i && i + p.len() <= s.len() {
                seq![s.take(i)] + split(s.skip(i + p.len()), p)
            } else {
                seq![s]
            },
            None => seq![s],
        }
    }
}

/// `str::trim_start_matches` with a non-empty pattern.
pub open spec fn trim_start_matches(s: Seq<char>, p: Seq<char>) -> Seq<char>
    decreases s.len(),
{
    if p.len() > 0 && starts_with(s, p) {
        trim_start_matches(s.skip(p.len() as int), p)
    } else {
        s
    }
}

/// `str::trim_end_matches` with a non-empty pattern.
pub open spec fn trim_end_matches(s: Seq<char>, p: Seq<char>) -> Seq<char>
    decreases s.len(),
{
    if p.len() > 0 && ends_with(s, p) {
        trim_end_matches(s.take(s.len() - p.len()), p)
    } else {
        s
    }
}

/// `str::strip_prefix`.
pub open spec fn strip_prefix(s: Seq<char>, p: Seq<char>) -> Option<Seq<char>> {
    if starts_with(s, p) {
        Some(s.skip(p.len() as int))
    } else {
        None
    }
}

/// `str::replace` with a non-empty pattern, scanning from position `i`.
pub open spec fn replace_from(s: Seq<char>, p: Seq<char>, q: Seq<char>, i: int) -> Seq<char>
    decreases s.len() - i,
{
    if i < 0 || p.len() == 0 || i >= s.len() {
        s.skip(i)
    } else if occurs_at(s, p, i) {
        q + replace_from(s, p, q, i + p.len())
    } else {
        seq![s[i]] + replace_from(s, p, q, i + 1)
    }
}

/// `str::replace` with a non-empty pattern.
pub open spec fn replace(s: Seq<char>, p: Seq<char>, q: Seq<char>) -> Seq<char> {
    replace_from(s, p, q, 0)
}

/// `parts.join(sep)`.
pub open spec fn join(parts: Seq<Seq<char>>, sep: Seq<char>) -> Seq<char>
    decreases parts.len(),
{
    if parts.len() == 0 {
        Seq::empty()
    } else if parts.len() == 1 {
        parts[0]
    } else {
        join(parts.drop_last(), sep) + sep + parts.last()
    }
}

/// ASCII upper-case letters mapped to lower case, everything else kept
/// (`str::to_ascii_lowercase`).
pub open spec fn ascii_lower_char(c: char) -> char {
    if 'A' <= c && c <= 'Z' {
        ((c as u32) + 32) as char
    } else {
        c
    }
}

pub open spec fn ascii_lower(s: Seq<char>) -> Seq<char> {
    s.map_values(|c: char| ascii_lower_char(c))
}

/// One line of text as `str::lines` yields it: a trailing `'\r'` is part of
/// the line ending only where a `'\n'` follows it.
pub open spec fn strip_cr(s: Seq<char>) -> Seq<char> {
    if s.len() > 0 && s.last() == '\r' {
        s.drop_last()
    } else {
        s
    }
}

/// `str::lines`.
pub open spec fn lines(s: Seq<char>) -> Seq<Seq<char>>
    decreases s.len(),
{
    if s.len() == 0 {
        Seq::empty()
    } else {
        match find(s, seq!['\n']) {
            Some(i) => if 0 <= i < s.len() {
                seq![strip_cr(s.take(i))] + lines(s.skip(i + 1))
            } else {
                seq![s]
            },
            None => seq![s],
        }
    }
}

/// Decimal digits of a natural number, as `Display` writes an unsigned integer.
pub open spec fn decimal(n: nat) -> Seq<char>
    decreases n,
{
    if n < 10 {
        seq![digit_char(n)]
    } else {
        decimal(n / 10).push(digit_char(n % 10))
    }
}

pub open spec fn digit_char(d: nat) -> char {
    ((d + 48) as u32) as char
}

pub open spec fn views(v: Seq<Vec<char>>) -> Seq<Seq<char>> {
    v.map_values(|x: Vec<char>| x@)
}

// ---------------------------------------------------------------------------
// Lemmas
// ---------------------------------------------------------------------------

pub proof fn lemma_find_from_bounds(s: Seq<char>, p: Seq<char>, i: int)
    ensures
        find_from(s, p, i) matches Some(j) ==> i <= j && occurs_at(s, p, j),
        find_from(s, p, i) matches Some(j) ==> forall|k: int| i <= k < j ==> !occurs_at(s, p, k),
        find_from(s, p, i) is None ==> forall|k: int| 0 <= i <= k ==> !occurs_at(s, p, k),
    decreases s.len() - i,
{
    if i < 0 || i + p.len() > s.len() {
    } else if occurs_at(s, p, i) {
    } else if i >= s.len() {
    } else {
        lemma_find_from_bounds(s, p, i + 1);
    }
}

pub proof fn lemma_find_bounds(s: Seq<char>, p: Seq<char>)
    ensures
        find(s, p) matches Some(j) ==> 0 <= j && j + p.len() <= s.len() && occurs_at(s, p, j),
        find(s, p) matches Some(j) ==> forall|k: int| 0 <= k < j ==> !occurs_at(s, p, k),
        find(s, p) is None ==> forall|k: int| 0 <= k ==> !occurs_at(s, p, k),
{
    lemma_find_from_bounds(s, p, 0);
}

pub proof fn lemma_rfind_upto_bounds(s: Seq<char>, p: Seq<char>, i: int)
    ensures
        rfind_upto(s, p, i) matches Some(j) ==> j <= i && occurs_at(s, p, j),
        rfind_upto(s, p, i) matches Some(j) ==> forall|k: int| j < k <= i ==> !occurs_at(s, p, k),
        rfind_upto(s, p, i) is None ==> forall|k: int| k <= i ==> !occurs_at(s, p, k),
    decreases i + 1,
{
    if i < 0 {
    } else if occurs_at(s, p, i) {
    } else {
        lemma_rfind_upto_bounds(s, p, i - 1);
    }
}

pub proof fn lemma_rfind_bounds(s: Seq<char>, p: Seq<char>)
    ensures
        rfind(s, p) matches Some(j) ==> 0 <= j && j + p.len() <= s.len() && occurs_at(s, p, j),
        rfind(s, p) matches Some(j) ==> forall|k: int| j < k ==> !occurs_at(s, p, k),
        rfind(s, p) is None ==> forall|k: int| !occurs_at(s, p, k),
{
    lemma_rfind_upto_bounds(s, p, s.len() - p.len());
}

pub proof fn lemma_trim_start_matches_len(s: Seq<char>, p: Seq<char>)
    ensures
        trim_start_matches(s, p).len() <= s.len(),
    decreases s.len(),
{
    if p.len() > 0 && starts_with(s, p) {
        lemma_trim_start_matches_len(s.skip(p.len() as int), p);
    }
}

pub proof fn lemma_split_nonempty(s: Seq<char>, p: Seq<char>)
    ensures
        split(s, p).len() > 0,
{
    lemma_find_bounds(s, p);
}

/// A single character occurs at `i` exactly where `s[i]` is that character.
pub proof fn lemma_occurs_single(s: Seq<char>, c: char, i: int)
    ensures
        occurs_at(s, seq![c], i) <==> (0 <= i < s.len() && s[i] == c),
{
    if 0 <= i < s.len() && s[i] == c {
        assert(s.subrange(i, i + 1) =~= seq![c]);
    }
    if occurs_at(s, seq![c], i) {
        assert(s.subrange(i, i + 1)[0] == s[i]);
    }
}

// ---------------------------------------------------------------------------
// Executable helpers
// ---------------------------------------------------------------------------

/// The characters of a string slice, in order.
pub fn chars_of(s: &str) -> (v: Vec<char>)
    ensures
        v@ == s@,
{
    let mut v: Vec<char> = Vec::new();
    for c in it: s.chars()
        invariant
            v@ == it.seq().take(it.index() as int),
    {
        v.push(c);
    }
    v
}

/// A `String` holding exactly the given characters.
pub fn string_of(v: &Vec<char>) -> (s: String)
    ensures
        s@ == v@,
{
    let mut s = String::new();
    let mut i: usize = 0;
    while i < v.len()
        invariant
            i <= v.len(),
            s@ == v@.take(i as int),
        decreases v.len() - i,
    {
        s.push(v[i]);
        i = i + 1;
        assert(s@ =~= v@.take(i as int));
    }
    assert(v@.take(v.len() as int) =~= v@);
    s
}

/// Append the characters of `v` to `s`.
pub fn push_chars(s: &mut String, v: &Vec<char>)
    ensures
        final(s)@ == old(s)@ + v@,
{
    let ghost s0 = s@;
    let mut i: usize = 0;
    while i < v.len()
        invariant
            i <= v.len(),
            s@ == s0 + v@.take(i as int),
        decreases v.len() - i,
    {
        s.push(v[i]);
        i = i + 1;
        assert(s@ =~= s0 + v@.take(i as int));
    }
    assert(v@.take(v.len() as int) =~= v@);
}

/// Append `t` to `s` (`String::push_str`).
pub fn push_text(s: &mut String, t: &str)
    ensures
        final(s)@ == old(s)@ + t@,
{
    push_chars(s, &chars_of(t));
}

/// Copy of `v[a..b]`.
pub fn slice_of(v: &Vec<char>, a: usize, b: usize) -> (r: Vec<char>)
    requires
        a <= b <= v.len(),
    ensures
        r@ == v@.subrange(a as int, b as int),
{
    let mut r: Vec<char> = Vec::new();
    let mut i: usize = a;
    while i < b
        invariant
            a <= i <= b <= v.len(),
            r@ == v@.subrange(a as int, i as int),
        decreases b - i,
    {
        r.push(v[i]);
        i = i + 1;
        assert(r@ =~= v@.subrange(a as int, i as int));
    }
    r
}

/// `a ++ b`.
pub fn concat(a: &Vec<char>, b: &Vec<char>) -> (r: Vec<char>)
    ensures
        r@ == a@ + b@,
{
    let mut r = a.clone();
    let mut i: usize = 0;
    while i < b.len()
        invariant
            i <= b.len(),
            r@ == a@ + b@.take(i as int),
        decreases b.len() - i,
    {
        r.push(b[i]);
        i = i + 1;
        assert(r@ =~= a@ + b@.take(i as int));
    }
    assert(b@.take(b.len() as int) =~= b@);
    r
}

pub fn is_ws_char(c: char) -> (b: bool)
    ensures
        b == is_ws(c),
{
    ('\u{9}' <= c && c <= '\u{d}') || c == ' ' || c == '\u{85}' || c == '\u{a0}' || c
        == '\u{1680}' || ('\u{2000}' <= c && c <= '\u{200a}') || c == '\u{2028}' || c
        == '\u{2029}' || c == '\u{202f}' || c == '\u{205f}' || c == '\u{3000}'
}

/// Equality of two character vectors.
pub fn eq_v(a: &Vec<char>, b: &Vec<char>) -> (r: bool)
    ensures
        r == (a@ == b@),
{
    if a.len() != b.len() {
        return false;
    }
    let mut i: usize = 0;
    while i < a.len()
        invariant
            a.len() == b.len(),
            i <= a.len(),
            forall|k: int| 0 <= k < i ==> a@[k] == b@[k],
        decreases a.len() - i,
    {
        if a[i] != b[i] {
            return false;
        }
        i = i + 1;
    }
    assert(a@ =~= b@);
    true
}

/// Equality of two string slices.
pub fn str_eq(a: &str, b: &str) -> (r: bool)
    ensures
        r == (a@ == b@),
{
    let x = chars_of(a);
    let y = chars_of(b);
    eq_v(&x, &y)
}

/// `str::trim`.
pub fn trim_v(s: &Vec<char>) -> (r: Vec<char>)
    ensures
        r@ == trim(s@),
{
    let len = s.len();
    let mut i: usize = 0;
    assert(s@.subrange(0, len as int) =~= s@);
    while i < len && is_ws_char(s[i])
        invariant
            i <= len == s.len(),
            trim_start(s@) == trim_start(s@.subrange(i as int, len as int)),
        decreases len - i,
    {
        assert(s@.subrange(i as int, len as int).drop_first() =~= s@.subrange(
            i + 1,
            len as int,
        ));
        i = i + 1;
    }
    let mut j: usize = len;
    while j > i && is_ws_char(s[j - 1])
        invariant
            i <= j <= len == s.len(),
            trim_start(s@) == s@.subrange(i as int, len as int),
            trim_end(s@.subrange(i as int, j as int)) == trim(s@),
        decreases j,
    {
        assert(s@.subrange(i as int, j as int).drop_last() =~= s@.subrange(
            i as int,
            j - 1,
        ));
        j = j - 1;
    }
    slice_of(s, i, j)
}

/// `p` occurs in `s` at position `i`.
pub fn occurs_at_v(s: &Vec<char>, p: &Vec<char>, i: usize) -> (b: bool)
    ensures
        b == occurs_at(s@, p@, i as int),
{
    if i > s.len() || p.len() > s.len() - i {
        return false;
    }
    let mut k: usize = 0;
    while k < p.len()
        invariant
            i + p.len() <= s.len(),
            k <= p.len(),
            forall|t: int| 0 <= t < k ==> s@[i + t] == p@[t],
        decreases p.len() - k,
    {
        if s[i + k] != p[k] {
            assert(s@.subrange(i as int, i + p.len())[k as int] == s@[i + k]);
            return false;
        }
        k = k + 1;
    }
    assert(s@.subrange(i as int, i + p.len()) =~= p@);
    true
}

pub fn starts_with_v(s: &Vec<char>, p: &Vec<char>) -> (b: bool)
    ensures
        b == starts_with(s@, p@),
{
    let b = occurs_at_v(s, p, 0);
    proof {
        if p.len() <= s.len() {
            assert(s@.subrange(0, p@.len() as int) =~= s@.take(p@.len() as int));
        }
    }
    b
}

pub fn ends_with_v(s: &Vec<char>, p: &Vec<char>) -> (b: bool)
    ensures
        b == ends_with(s@, p@),
{
    if p.len() > s.len() {
        return false;
    }
    let b = occurs_at_v(s, p, s.len() - p.len());
    proof {
        assert(s@.subrange(s.len() - p.len(), s.len() as int) =~= s@.skip(
            s.len() - p.len(),
        ));
    }
    b
}

/// `str::find`.
pub fn find_v(s: &Vec<char>, p: &Vec<char>) -> (r: Option<usize>)
    ensures
        r matches Some(i) ==> find(s@, p@) == Some(i as int),
        r is None ==> find(s@, p@) is None,
{
    let mut i: usize = 0;
    if p.len() > s.len() {
        return None;
    }
    loop
        invariant
            p.len() <= s.len(),
            i <= s.len() - p.len(),
            find(s@, p@) == find_from(s@, p@, i as int),
        decreases s.len() - p.len() - i,
    {
        if occurs_at_v(s, p, i) {
            return Some(i);
        }
        if i == s.len() - p.len() {
            assert(find_from(s@, p@, i + 1) is None);
            return None;
        }
        i = i + 1;
    }
}

/// `str::rfind`.
pub fn rfind_v(s: &Vec<char>, p: &Vec<char>) -> (r: Option<usize>)
    ensures
        r matches Some(i) ==> rfind(s@, p@) == Some(i as int),
        r is None ==> rfind(s@, p@) is None,
{
    if p.len() > s.len() {
        return None;
    }
    let mut i: usize = s.len() - p.len();
    loop
        invariant
            i + p.len() <= s.len(),
            rfind(s@, p@) == rfind_upto(s@, p@, i as int),
        decreases i,
    {
        if occurs_at_v(s, p, i) {
            return Some(i);
        }
        if i == 0 {
            assert(rfind_upto(s@, p@, -1) is None);
            return None;
        }
        i = i - 1;
    }
}

/// `s.split(p).next().unwrap()`.
pub fn before_first_v(s: &Vec<char>, p: &Vec<char>) -> (r: Vec<char>)
    ensures
        r@ == before_first(s@, p@),
{
    proof {
        lemma_find_bounds(s@, p@);
    }
    match find_v(s, p) {
        Some(i) => slice_of(s, 0, i),
        None => s.clone(),
    }
}

/// `s.rsplit(p).next().unwrap()`.
pub fn after_last_v(s: &Vec<char>, p: &Vec<char>) -> (r: Vec<char>)
    ensures
        r@ == after_last(s@, p@),
{
    proof {
        lemma_rfind_bounds(s@, p@);
    }
    match rfind_v(s, p) {
        Some(i) => {
            assert(i + p.len() <= s.len());
            slice_of(s, i + p.len(), s.len())
        },
        None => s.clone(),
    }
}

/// `str::split_once`.
pub fn split_once_v(s: &Vec<char>, p: &Vec<char>) -> (r: Option<(Vec<char>, Vec<char>)>)
    ensures
        r matches Some((a, b)) ==> split_once(s@, p@) == Some((a@, b@)),
        r is None ==> split_once(s@, p@) is None,
{
    proof {
        lemma_find_bounds(s@, p@);
    }
    match find_v(s, p) {
        Some(i) => Some((slice_of(s, 0, i), slice_of(s, i + p.len(), s.len()))),
        None => None,
    }
}

/// `str::split` with a non-empty pattern.
pub fn split_v(s: &Vec<char>, p: &Vec<char>) -> (r: Vec<Vec<char>>)
    requires
        p.len() > 0,
    ensures
        views(r@) == split(s@, p@),
{
    let mut out: Vec<Vec<char>> = Vec::new();
    let mut rest = s.clone();
    loop
        invariant
            p.len() > 0,
            views(out@) + split(rest@, p@) == split(s@, p@),
        decreases rest.len(),
    {
        proof {
            lemma_find_bounds(rest@, p@);
        }
        match find_v(&rest, p) {
            Some(i) => {
                let piece = slice_of(&rest, 0, i);
                let next = slice_of(&rest, i + p.len(), rest.len());
                proof {
                    assert(rest@.take(i as int) =~= piece@);
                    assert(rest@.skip(i + p.len()) =~= next@);
                    assert(views(out@.push(piece)) =~= views(out@).push(piece@));
                    assert(views(out@).push(piece@) + split(next@, p@) =~= views(out@) + (
                    seq![piece@] + split(next@, p@)));
                }
                out.push(piece);
                rest = next;
            },
            None => {
                proof {
                    assert(views(out@.push(rest)) =~= views(out@) + seq![rest@]);
                }
                out.push(rest);
                return out;
            },
        }
    }
}

/// `str::trim_start_matches` with a non-empty pattern.
pub fn trim_start_matches_v(s: &Vec<char>, p: &Vec<char>) -> (r: Vec<char>)
    requires
        p.len() > 0,
    ensures
        r@ == trim_start_matches(s@, p@),
{
    let mut i: usize = 0;
    let len = s.len();
    assert(s@.skip(0) =~= s@);
    loop
        invariant
            p.len() > 0,
            i <= len == s.len(),
            trim_start_matches(s@, p@) == trim_start_matches(s@.skip(i as int), p@),
        decreases len - i,
    {
        let rest = slice_of(s, i, len);
        assert(rest@ =~= s@.skip(i as int));
        if starts_with_v(&rest, p) {
            assert(rest@.skip(p.len() as int) =~= s@.skip(i + p.len()));
            i = i + p.len();
        } else {
            return rest;
        }
    }
}

/// `str::trim_end_matches` with a non-empty pattern.
pub fn trim_end_matches_v(s: &Vec<char>, p: &Vec<char>) -> (r: Vec<char>)
    requires
        p.len() > 0,
    ensures
        r@ == trim_end_matches(s@, p@),
{
    let mut j: usize = s.len();
    assert(s@.take(j as int) =~= s@);
    loop
        invariant
            p.len() > 0,
            j <= s.len(),
            trim_end_matches(s@, p@) == trim_end_matches(s@.take(j as int), p@),
        decreases j,
    {
        let rest = slice_of(s, 0, j);
        assert(rest@ =~= s@.take(j as int));
        if ends_with_v(&rest, p) {
            assert(rest@.take(rest.len() - p.len()) =~= s@.take(j - p.len()));
            j = j - p.len();
        } else {
            return rest;
        }
    }
}

/// `str::strip_prefix`.
pub fn strip_prefix_v(s: &Vec<char>, p: &Vec<char>) -> (r: Option<Vec<char>>)
    ensures
        r matches Some(x) ==> strip_prefix(s@, p@) == Some(x@),
        r is None ==> strip_prefix(s@, p@) is None,
{
    if starts_with_v(s, p) {
        let r = slice_of(s, p.len(), s.len());
        assert(r@ =~= s@.skip(p.len() as int));
        Some(r)
    } else {
        None
    }
}

/// `str::replace` with a non-empty pattern.
pub fn replace_v(s: &Vec<char>, p: &Vec<char>, q: &Vec<char>) -> (r: Vec<char>)
    requires
        p.len() > 0,
    ensures
        r@ == replace(s@, p@, q@),
{
    let mut out: Vec<char> = Vec::new();
    let mut i: usize = 0;
    while i < s.len()
        invariant
            p.len() > 0,
            i <= s.len(),
            out@ + replace_from(s@, p@, q@, i as int) == replace(s@, p@, q@),
        decreases s.len() - i,
    {
        if occurs_at_v(s, p, i) {
            assert(out@ + replace_from(s@, p@, q@, i as int) =~= (out@ + q@) + replace_from(
                s@,
                p@,
                q@,
                i + p.len(),
            ));
            out = concat(&out, q);
            i = i + p.len();
        } else {
            assert(out@ + replace_from(s@, p@, q@, i as int) =~= out@.push(s@[i as int])
                + replace_from(s@, p@, q@, i + 1));
            out.push(s[i]);
            i = i + 1;
        }
    }
    assert(replace_from(s@, p@, q@, i as int) =~= Seq::<char>::empty());
    assert(out@ =~= out@ + Seq::<char>::empty());
    out
}

/// `str::to_ascii_lowercase`.
pub fn ascii_lower_v(s: &Vec<char>) -> (r: Vec<char>)
    ensures
        r@ == ascii_lower(s@),
{
    let mut out: Vec<char> = Vec::new();
    let mut i: usize = 0;
    while i < s.len()
        invariant
            i <= s.len(),
            out@ == ascii_lower(s@.take(i as int)),
        decreases s.len() - i,
    {
        let c = s[i];
        let d = if 'A' <= c && c <= 'Z' {
            char_add_32(c)
        } else {
            c
        };
        out.push(d);
        i = i + 1;
        assert(out@ =~= ascii_lower(s@.take(i as int)));
    }
    assert(s@.take(s.len() as int) =~= s@);
    out
}

fn char_add_32(c: char) -> (d: char)
    requires
        'A' <= c && c <= 'Z',
    ensures
        d == ascii_lower_char(c),
{
    let b: u8 = (c as u32) as u8;
    ((b + 32) as char)
}

/// `parts.join(sep)`.
pub fn join_v(parts: &Vec<Vec<char>>, sep: &Vec<char>) -> (r: Vec<char>)
    ensures
        r@ == join(views(parts@), sep@),
{
    let mut out: Vec<char> = Vec::new();
    let mut i: usize = 0;
    while i < parts.len()
        invariant
            i <= parts.len(),
            out@ == join(views(parts@.take(i as int)), sep@),
        decreases parts.len() - i,
    {
        proof {
            assert(views(parts@.take(i + 1)).drop_last() =~= views(parts@.take(i as int)));
            assert(views(parts@.take(i + 1)).last() == parts@[i as int]@);
        }
        if i == 0 {
            out = parts[0].clone();
            assert(views(parts@.take(1)) =~= seq![parts@[0]@]);
        } else {
            let with_sep = concat(&out, sep);
            out = concat(&with_sep, &parts[i]);
        }
        i = i + 1;
    }
    assert(parts@.take(parts.len() as int) =~= parts@);
    out
}

/// Decimal text of an unsigned integer.
pub fn decimal_v(n: u64) -> (r: Vec<char>)
    ensures
        r@ == decimal(n as nat),
    decreases n,
{
    if n < 10 {
        let mut r: Vec<char> = Vec::new();
        r.push(digit_v(n));
        assert(r@ =~= seq![digit_char(n as nat)]);
        r
    } else {
        let mut r = decimal_v(n / 10);
        r.push(digit_v(n % 10));
        r
    }
}

fn digit_v(d: u64) -> (c: char)
    requires
        d < 10,
    ensures
        c == digit_char(d as nat),
{
    if d == 0 { '0' }
    else if d == 1 { '1' }
    else if d == 2 { '2' }
    else if d == 3 { '3' }
    else if d == 4 { '4' }
    else if d == 5 { '5' }
    else if d == 6 { '6' }
    else if d == 7 { '7' }
    else if d == 8 { '8' }
    else { '9' }
}

/// `str::lines`.
pub fn lines_v(s: &Vec<char>) -> (r: Vec<Vec<char>>)
    ensures
        views(r@) == lines(s@),
{
    let nl: Vec<char> = vec!['\n'];
    assert(nl@ =~= seq!['\n']);
    let mut out: Vec<Vec<char>> = Vec::new();
    let mut rest = s.clone();
    loop
        invariant
            nl@ == seq!['\n'],
            views(out@) + lines(rest@) == lines(s@),
        decreases rest.len(),
    {
        if rest.len() == 0 {
            assert(views(out@) + lines(rest@) =~= views(out@));
            return out;
        }
        proof {
            lemma_find_bounds(rest@, nl@);
        }
        match find_v(&rest, &nl) {
            Some(i) => {
                let mut piece = slice_of(&rest, 0, i);
                if piece.len() > 0 && piece[piece.len() - 1] == '\r' {
                    let k = piece.len() - 1;
                    piece = slice_of(&piece, 0, k);
                    assert(piece@ =~= strip_cr(rest@.take(i as int)));
                } else {
                    assert(piece@ =~= strip_cr(rest@.take(i as int)));
                }
                let next = slice_of(&rest, i + 1, rest.len());
                proof {
                    assert(rest@.skip(i + 1) =~= next@);
                    assert(views(out@.push(piece)) =~= views(out@).push(piece@));
                    assert(views(out@).push(piece@) + lines(next@) =~= views(out@) + (seq![
                        piece@,
                    ] + lines(next@)));
                }
                out.push(piece);
                rest = next;
            },
            None => {
                proof {
                    assert(views(out@.push(rest)) =~= views(out@) + seq![rest@]);
                }
                out.push(rest);
                return out;
            },
        }
    }
}

/// A digit character is one of `0`..`9`, and its code is 48 plus the digit.
pub proof fn lemma_digit_char(d: nat)
    requires
        d < 10,
    ensures
        '0' <= digit_char(d) <= '9',
        digit_char(d) as int == d + 48,
{
}

proof fn lemma_decimal_len(n: nat)
    ensures
        decimal(n).len() >= 1,
        n >= 10 ==> decimal(n).len() >= 2,
    decreases n,
{
    if n >= 10 {
        lemma_decimal_len(n / 10);
    }
}

/// Decimal text is made of digits only.
pub proof fn lemma_decimal_digits(n: nat)
    ensures
        forall|i: int| 0 <= i < decimal(n).len() ==> '0' <= #[trigger] decimal(n)[i] <= '9',
    decreases n,
{
    if n < 10 {
        lemma_digit_char(n);
    } else {
        lemma_decimal_digits(n / 10);
        lemma_digit_char(n % 10);
        assert forall|i: int| 0 <= i < decimal(n).len() implies '0' <= #[trigger] decimal(n)[i] <= '9' by {
            if i < decimal(n / 10).len() {
                assert(decimal(n)[i] == decimal(n / 10)[i]);
            }
        }
    }
}

/// Different numbers have different decimal texts.
pub proof fn lemma_decimal_injective(a: nat, b: nat)
    requires
        decimal(a) == decimal(b),
    ensures
        a == b,
    decreases a,
{
    lemma_decimal_len(a);
    lemma_decimal_len(b);
    if a < 10 && b < 10 {
        lemma_digit_char(a);
        lemma_digit_char(b);
        assert(decimal(a)[0] == decimal(b)[0]);
        assert(decimal(a)[0] == digit_char(a));
        assert(decimal(b)[0] == digit_char(b));
    } else if a >= 10 && b >= 10 {
        lemma_digit_char(a % 10);
        lemma_digit_char(b % 10);
        assert(decimal(a).last() == decimal(b).last());
        assert(decimal(a).drop_last() =~= decimal(a / 10));
        assert(decimal(b).drop_last() =~= decimal(b / 10));
        lemma_decimal_injective(a / 10, b / 10);
        assert(decimal(a).last() == digit_char(a % 10));
        assert(decimal(b).last() == digit_char(b % 10));
        assert(a % 10 == b % 10);
        assert(a == (a / 10) * 10 + a % 10);
        assert(b == (b / 10) * 10 + b % 10);
    } else {
        assert(decimal(a).len() == decimal(b).len());
    }
}

/// Splitting at the first separator: text before a separator that does not
/// occur in it is fixed by the whole.
pub proof fn lemma_split_at_char(a1: Seq<char>, b1: Seq<char>, a2: Seq<char>, b2: Seq<char>, c: char)
    requires
        !a1.contains(c),
        !a2.contains(c),
        a1 + seq![c] + b1 == a2 + seq![c] + b2,
    ensures
        a1 == a2,
        b1 == b2,
{
    let k1 = a1 + seq![c] + b1;
    let k2 = a2 + seq![c] + b2;
    assert(k1[a1.len() as int] == c);
    assert(k2[a2.len() as int] == c);
    if a1.len() < a2.len() {
        assert(k2[a1.len() as int] == a2[a1.len() as int]);
        assert(a2.contains(a2[a1.len() as int]));
    }
    if a2.len() < a1.len() {
        assert(k1[a2.len() as int] == a1[a2.len() as int]);
        assert(a1.contains(a1[a2.len() as int]));
    }
    assert forall|i: int| 0 <= i < a1.len() implies a1[i] == a2[i] by {
        assert(k1[i] == a1[i]);
        assert(k2[i] == a2[i]);
    }
    assert(a1 =~= a2);
    assert(k1.len() == k2.len());
    assert forall|i: int| 0 <= i < b1.len() implies b1[i] == b2[i] by {
        assert(k1[a1.len() + 1 + i] == b1[i]);
        assert(k2[a2.len() + 1 + i] == b2[i]);
    }
    assert(b1 =~= b2);
}

} // verus!
