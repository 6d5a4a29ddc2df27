//! Identifiers: project ids, symbol ids and job ids.

use vstd::prelude::*;
use vstd::utf8::encode_utf8;
use crate::constants::STABLE_ID_VERSION;
use crate::text::{chars_of, concat, decimal, decimal_v, slice_of, string_of};
use crate::types::{SymbolKind, kind_name};

verus! {

/// The 32-byte BLAKE3 digest of `data`.
pub uninterp spec fn blake3_digest(data: Seq<u8>) -> Seq<u8>;

/// Calls `blake3::hash` and hands back the digest bytes (`Hash::as_bytes`).
/// The digest is named, not stated; its length is 32 bytes.
#[verifier::external_body]
fn blake3_hash(data: &[u8]) -> (r: Vec<u8>)
    ensures
        r@ == blake3_digest(data@),
        r@.len() == 32,
{
    blake3::hash(data).as_bytes().to_vec()
}

/// Lower-case hex digit of a value below 16.
pub open spec fn hex_lower_digit(d: nat) -> char {
    if d < 10 {
        ((d + 48) as u32) as char
    } else {
        ((d + 87) as u32) as char
    }
}

/// Lower-case hex text of a byte sequence, two digits per byte, high nibble
/// first (`blake3::Hash::to_hex`).
pub open spec fn lower_hex(bytes: Seq<u8>) -> Seq<char>
    decreases bytes.len(),
{
    if bytes.len() == 0 {
        Seq::empty()
    } else {
        lower_hex(bytes.drop_last()) + seq![
            hex_lower_digit((bytes.last() / 16) as nat),
            hex_lower_digit((bytes.last() % 16) as nat),
        ]
    }
}

pub open spec fn is_lower_hex_char(c: char) -> bool {
    ('0' <= c && c <= '9') || ('a' <= c && c <= 'f')
}

fn hex_digit(d: u8) -> (c: char)
    requires
        d < 16,
    ensures
        c == hex_lower_digit(d as nat),
{
    if d < 10 {
        (d + 48) as char
    } else {
        (d + 87) as char
    }
}

fn lower_hex_v(bytes: &Vec<u8>) -> (r: Vec<char>)
    ensures
        r@ == lower_hex(bytes@),
        r@.len() == 2 * bytes@.len(),
{
    let mut out: Vec<char> = Vec::new();
    let mut i: usize = 0;
    while i < bytes.len()
        invariant
            i <= bytes.len(),
            out@ == lower_hex(bytes@.take(i as int)),
            out@.len() == 2 * i,
        decreases bytes.len() - i,
    {
        let b = bytes[i];
        out.push(hex_digit(b / 16));
        out.push(hex_digit(b % 16));
        assert(bytes@.take(i + 1).drop_last() =~= bytes@.take(i as int));
        assert(out@ =~= lower_hex(bytes@.take(i + 1)));
        i = i + 1;
    }
    assert(bytes@.take(bytes.len() as int) =~= bytes@);
    out
}

/// Lower-case hex BLAKE3 digest of the UTF-8 encoding of `text`.
pub open spec fn blake3_hex_of_text(text: Seq<char>) -> Seq<char> {
    lower_hex(blake3_digest(encode_utf8(text)))
}

pub(crate) fn blake3_hex_text(text: &Vec<char>) -> (r: Vec<char>)
    ensures
        r@ == blake3_hex_of_text(text@),
        r@.len() == 64,
{
    let s = string_of(text);
    let digest = blake3_hash(s.as_str().as_bytes());
    lower_hex_v(&digest)
}

pub proof fn lemma_lower_hex_chars(bytes: Seq<u8>)
    ensures
        forall|i: int| 0 <= i < lower_hex(bytes).len() ==> is_lower_hex_char(#[trigger] lower_hex(bytes)[i]),
        lower_hex(bytes).len() == 2 * bytes.len(),
    decreases bytes.len(),
{
    if bytes.len() > 0 {
        lemma_lower_hex_chars(bytes.drop_last());
        let a = lower_hex(bytes.drop_last());
        let b = bytes.last();
        let t = seq![hex_lower_digit((b / 16) as nat), hex_lower_digit((b % 16) as nat)];
        assert forall|i: int| 0 <= i < (a + t).len() implies is_lower_hex_char(#[trigger] (a + t)[i]) by {
            if i < a.len() {
                assert((a + t)[i] == a[i]);
            }
        }
    }
}

/// A project's id: the first 16 hex digits of the BLAKE3 digest of its
/// (canonical) repository root path.
pub open spec fn project_id_spec(root: Seq<char>) -> Seq<char> {
    blake3_hex_of_text(root).take(16)
}

/// Project id of a repository root, given as canonical path text (or the
/// path as given when it cannot be canonicalized).
pub fn project_id_for_root(root: &str) -> (r: String)
    ensures
        r@ == project_id_spec(root@),
        r@.len() == 16,
{
    let hex = blake3_hex_text(&chars_of(root));
    string_of(&slice_of(&hex, 0, 16))
}

/// The text hashed for a stable symbol id:
/// `stable_id:v1|<language>|<kind>|<qualified_name>|<signature>`.
pub open spec fn stable_id_input(
    language: Seq<char>,
    kind: SymbolKind,
    qualified_name: Seq<char>,
    signature: Option<Seq<char>>,
) -> Seq<char> {
    "stable_id:v1"@ + "|"@ + language + "|"@ + kind_name(kind) + "|"@ + qualified_name + "|"@
        + match signature {
        Some(s) => s,
        None => Seq::empty(),
    }
}

fn join_bar(a: Vec<char>, b: &Vec<char>) -> (r: Vec<char>)
    ensures
        r@ == a@ + "|"@ + b@,
{
    let with_bar = concat(&a, &chars_of("|"));
    concat(&with_bar, b)
}

/// Compute symbol_stable_id using blake3; independent of the line a symbol
/// sits on.
pub fn compute_symbol_stable_id(
    language: &str,
    kind: &SymbolKind,
    qualified_name: &str,
    signature: Option<&str>,
) -> (r: String)
    ensures
        r@ == blake3_hex_of_text(stable_id_input(language@, *kind, qualified_name@, match signature {
            Some(s) => Some(s@),
            None => None,
        })),
        r@.len() == 64,
{
    let sig = match signature {
        Some(s) => chars_of(s),
        None => Vec::new(),
    };
    let a = join_bar(chars_of(STABLE_ID_VERSION), &chars_of(language));
    let b = join_bar(a, &chars_of(kind.as_str()));
    let c = join_bar(b, &chars_of(qualified_name));
    let d = join_bar(c, &sig);
    assert(d@ =~= stable_id_input(language@, *kind, qualified_name@, match signature {
        Some(s) => Some(s@),
        None => None,
    }));
    string_of(&blake3_hex_text(&d))
}

/// The text hashed for a ref-local symbol id:
/// `<repo>|<ref>|<path>|<kind>|<line_start>|<name>`.
pub open spec fn symbol_id_input(
    repo: Seq<char>,
    ref_name: Seq<char>,
    path: Seq<char>,
    kind: SymbolKind,
    line_start: u32,
    name: Seq<char>,
) -> Seq<char> {
    repo + "|"@ + ref_name + "|"@ + path + "|"@ + kind_name(kind) + "|"@ + decimal(
        line_start as nat,
    ) + "|"@ + name
}

/// Compute symbol_id (ref-local, changes on line movement).
pub fn compute_symbol_id(
    repo: &str,
    ref_name: &str,
    path: &str,
    kind: &SymbolKind,
    line_start: u32,
    name: &str,
) -> (r: String)
    ensures
        r@ == blake3_hex_of_text(symbol_id_input(repo@, ref_name@, path@, *kind, line_start, name@)),
        r@.len() == 64,
{
    let a = join_bar(chars_of(repo), &chars_of(ref_name));
    let b = join_bar(a, &chars_of(path));
    let c = join_bar(b, &chars_of(kind.as_str()));
    let d = join_bar(c, &decimal_v(line_start as u64));
    let e = join_bar(d, &chars_of(name));
    string_of(&blake3_hex_text(&e))
}

/// The 32 lower-case hex digits of a 128-bit value, zero-padded
/// (`format!("{:032x}", n)`).
pub open spec fn hex32(n: u128) -> Seq<char> {
    Seq::new(32, |i: int| hex_lower_digit(((n >> ((124 - 4 * i) as u128)) & 15) as nat))
}

/// The value a job id encodes: wall-clock nanoseconds, process id, a hash of
/// the thread id and a per-process counter, mixed by exclusive or.
pub open spec fn job_id_mix(now_nanos: u128, pid: u32, thread_hash: u64, counter: u64) -> u128 {
    now_nanos ^ ((pid as u128) << 32u128) ^ (thread_hash as u128) ^ (counter as u128)
}

/// Renders a job id from the values it mixes.
pub fn job_id_from_parts(now_nanos: u128, pid: u32, thread_hash: u64, counter: u64) -> (r: String)
    ensures
        r@ == hex32(job_id_mix(now_nanos, pid, thread_hash, counter)),
{
    let mixed: u128 = now_nanos ^ ((pid as u128) << 32u128) ^ (thread_hash as u128) ^ (
    counter as u128);
    let mut out: Vec<char> = Vec::new();
    let mut i: u32 = 0;
    while i < 32
        invariant
            i <= 32,
            mixed == job_id_mix(now_nanos, pid, thread_hash, counter),
            out@ =~= hex32(mixed).take(i as int),
        decreases 32 - i,
    {
        let shift: u128 = (124 - 4 * i) as u128;
        let d: u128 = (mixed >> shift) & 15;
        assert(d < 16) by (bit_vector)
            requires
                d == (mixed >> shift) & 15,
        ;
        out.push(hex_digit(d as u8));
        assert(out@ =~= hex32(mixed).take(i + 1));
        i = i + 1;
    }
    string_of(&out)
}

} // verus!
