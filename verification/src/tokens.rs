//! Token budget estimation.

use vstd::prelude::*;
use crate::text::{chars_of, is_ws, is_ws_char};

verus! {

/// Number of maximal runs of non-white-space characters
/// (`str::split_whitespace().count()`).
pub open spec fn word_count(s: Seq<char>) -> nat
    decreases s.len(),
{
    if s.len() == 0 {
        0
    } else {
        word_count(s.drop_last()) + (if !is_ws(s.last()) && (s.len() == 1 || is_ws(
            s[s.len() - 2],
        )) {
            1nat
        } else {
            0nat
        })
    }
}

/// `ceil(words * 1.3)`, computed exactly as `ceil(13 * words / 10)`, capped
/// at `usize::MAX`.
pub open spec fn token_estimate(words: nat) -> nat {
    let e = (13 * words + 9) / 10;
    if e > usize::MAX {
        usize::MAX as nat
    } else {
        e
    }
}

/// Estimate token usage with a conservative approximation.
///
/// Formula: ceil(whitespace_split_word_count * 1.3)
pub fn estimate_tokens(text: &str) -> (r: usize)
    ensures
        r == token_estimate(word_count(text@)),
{
    let cs = chars_of(text);
    let mut words: usize = 0;
    let mut i: usize = 0;
    while i < cs.len()
        invariant
            i <= cs.len(),
            cs@ == text@,
            words == word_count(cs@.take(i as int)),
            words <= i,
        decreases cs.len() - i,
    {
        assert(cs@.take(i + 1).drop_last() =~= cs@.take(i as int));
        if !is_ws_char(cs[i]) && (i == 0 || is_ws_char(cs[i - 1])) {
            words = words + 1;
        }
        i = i + 1;
    }
    assert(cs@.take(cs.len() as int) =~= cs@);
    if words == 0 {
        return 0;
    }
    let e: u128 = (13 * (words as u128) + 9) / 10;
    if e > usize::MAX as u128 {
        usize::MAX
    } else {
        e as usize
    }
}

/// No estimate is zero unless the text holds no word, and more words never
/// give a smaller estimate.
pub proof fn lemma_estimate_zero_iff_no_words(words: nat)
    ensures
        token_estimate(words) == 0 <==> words == 0,
        forall|w2: nat| w2 >= words ==> token_estimate(w2) >= token_estimate(words),
{
}

} // verus!
