//! Filesystem layout of index data: the overlay directory of each ref, the
//! staging directory of each sync, and the write target of an indexing run.

use vstd::prelude::*;
use vstd::utf8::{encode_utf8, is_ascii_chars, is_ascii_chars_encode_utf8};
use crate::paths::{path_join, path_join_v};
use crate::text::{chars_of, push_text, string_of};

verus! {

/// Bytes kept as they are in an overlay directory name: `[A-Za-z0-9._-]`.
pub open spec fn is_safe_ref_byte(b: u8) -> bool {
    (65 <= b <= 90) || (97 <= b <= 122) || (48 <= b <= 57) || b == 46 || b == 95 || b == 45
}

/// Upper-case hex digit of a value below 16.
pub open spec fn hex_upper_digit(d: nat) -> char {
    if d < 10 {
        ((d + 48) as u32) as char
    } else {
        ((d + 55) as u32) as char
    }
}

/// One byte of a ref name in its directory name: `/` becomes `-`, safe bytes
/// stay, anything else is percent-encoded as `%XX`.
pub open spec fn encode_ref_byte(b: u8) -> Seq<char> {
    if b == 47 {
        seq!['-']
    } else if is_safe_ref_byte(b) {
        seq![(b as u32) as char]
    } else {
        seq!['%', hex_upper_digit((b / 16) as nat), hex_upper_digit((b % 16) as nat)]
    }
}

pub open spec fn encode_ref_bytes(bs: Seq<u8>) -> Seq<char>
    decreases bs.len(),
{
    if bs.len() == 0 {
        Seq::empty()
    } else {
        encode_ref_bytes(bs.drop_last()) + encode_ref_byte(bs.last())
    }
}

/// The overlay directory component of a ref: its UTF-8 bytes encoded byte by
/// byte, or `default` for the empty ref.
pub open spec fn normalize_overlay_ref_spec(ref_name: Seq<char>) -> Seq<char> {
    let e = encode_ref_bytes(encode_utf8(ref_name));
    if e.len() == 0 {
        "default"@
    } else {
        e
    }
}

/// Returns `<data_dir>/overlay`.
pub fn overlay_root(data_dir: &str) -> (r: String)
    ensures
        r@ == path_join(data_dir@, "overlay"@),
{
    string_of(&path_join_v(&chars_of(data_dir), &chars_of("overlay")))
}

fn hex_digit_v(d: u8) -> (c: char)
    requires
        d < 16,
    ensures
        c == hex_upper_digit(d as nat),
{
    if d < 10 {
        (d + 48) as char
    } else {
        (d + 55) as char
    }
}

/// Normalize a ref name to a filesystem-safe overlay directory component.
///
/// Rules:
/// - `/` is converted to `-`
/// - `[A-Za-z0-9._-]` are preserved
/// - all other bytes are percent-encoded (`%XX`)
pub fn normalize_overlay_ref(ref_name: &str) -> (r: String)
    ensures
        r@ == normalize_overlay_ref_spec(ref_name@),
{
    let bytes = ref_name.as_bytes();
    let mut out: Vec<char> = Vec::new();
    let mut i: usize = 0;
    while i < bytes.len()
        invariant
            i <= bytes.len(),
            bytes@ == encode_utf8(ref_name@),
            out@ == encode_ref_bytes(bytes@.take(i as int)),
        decreases bytes.len() - i,
    {
        let b = bytes[i];
        assert(bytes@.take(i + 1).drop_last() =~= bytes@.take(i as int));
        if b == 47 {
            out.push('-');
            assert(out@ =~= encode_ref_bytes(bytes@.take(i + 1)));
        } else if (65 <= b && b <= 90) || (97 <= b && b <= 122) || (48 <= b && b <= 57) || b == 46
            || b == 95 || b == 45 {
            out.push(b as char);
            assert(out@ =~= encode_ref_bytes(bytes@.take(i + 1)));
        } else {
            out.push('%');
            out.push(hex_digit_v(b / 16));
            out.push(hex_digit_v(b % 16));
            assert(out@ =~= encode_ref_bytes(bytes@.take(i + 1)));
        }
        i = i + 1;
    }
    assert(bytes@.take(bytes.len() as int) =~= bytes@);
    if out.len() == 0 {
        string_of(&chars_of("default"))
    } else {
        string_of(&out)
    }
}

/// Returns `<data_dir>/overlay/<normalized_ref>`.
pub fn overlay_dir_for_ref(data_dir: &str, ref_name: &str) -> (r: String)
    ensures
        r@ == path_join(path_join(data_dir@, "overlay"@), normalize_overlay_ref_spec(ref_name@)),
{
    let root = overlay_root(data_dir);
    let norm = normalize_overlay_ref(ref_name);
    string_of(&path_join_v(&chars_of(root.as_str()), &chars_of(norm.as_str())))
}

/// Returns `<data_dir>/staging`.
pub fn staging_root(data_dir: &str) -> (r: String)
    ensures
        r@ == path_join(data_dir@, "staging"@),
{
    string_of(&path_join_v(&chars_of(data_dir), &chars_of("staging")))
}

/// Returns `<data_dir>/staging/<sync_id>`.
pub fn staging_dir(data_dir: &str, sync_id: &str) -> (r: String)
    ensures
        r@ == path_join(path_join(data_dir@, "staging"@), sync_id@),
{
    let root = staging_root(data_dir);
    string_of(&path_join_v(&chars_of(root.as_str()), &chars_of(sync_id)))
}

/// Outcome of publishing a staging directory as a ref's overlay: the overlay
/// path and, when an overlay already existed, where it was moved aside.
#[derive(Debug, Clone, PartialEq, Eq)]
pub struct OverlayPublish {
    pub overlay_dir: String,
    pub backup_dir: Option<String>,
}

/// Destination for index writes in VCS mode.
#[derive(Debug, Clone, Copy, PartialEq, Eq)]
pub enum WriteTarget<'a> {
    /// Shared immutable default branch index at `<data_dir>/base`.
    Base,
    /// Ref-scoped overlay at `<data_dir>/overlay/<normalized_ref>`.
    Overlay { branch: &'a str },
    /// Sync-local staging area at `<data_dir>/staging/<sync_id>`.
    Staging { sync_id: &'a str },
}

/// The index root directory of a write target.
pub open spec fn index_root_spec(target: WriteTarget, data_dir: Seq<char>) -> Seq<char> {
    match target {
        WriteTarget::Base => path_join(data_dir, "base"@),
        WriteTarget::Overlay { branch } => path_join(
            path_join(data_dir, "overlay"@),
            normalize_overlay_ref_spec(branch@),
        ),
        WriteTarget::Staging { sync_id } => path_join(path_join(data_dir, "staging"@), sync_id@),
    }
}

impl<'a> WriteTarget<'a> {
    /// Resolve the concrete index root path for this write target.
    pub fn index_root(self, data_dir: &str) -> (r: String)
        ensures
            r@ == index_root_spec(self, data_dir@),
    {
        match self {
            WriteTarget::Base => string_of(&path_join_v(&chars_of(data_dir), &chars_of("base"))),
            WriteTarget::Overlay { branch } => overlay_dir_for_ref(data_dir, branch),
            WriteTarget::Staging { sync_id } => staging_dir(data_dir, sync_id),
        }
    }
}

// ---------------------------------------------------------------------------
// Laws
// ---------------------------------------------------------------------------

proof fn lemma_encode_ref_bytes_no_slash(bs: Seq<u8>)
    ensures
        !encode_ref_bytes(bs).contains('/'),
    decreases bs.len(),
{
    if bs.len() > 0 {
        lemma_encode_ref_bytes_no_slash(bs.drop_last());
        let a = encode_ref_bytes(bs.drop_last());
        let b = encode_ref_byte(bs.last());
        assert forall|i: int| 0 <= i < (a + b).len() implies (a + b)[i] != '/' by {
            if i < a.len() {
                assert((a + b)[i] == a[i]);
            } else {
                let d = bs.last();
                assert((d / 16) < 16 && (d % 16) < 16);
            }
        }
    }
}

/// A normalized overlay ref is never empty and never holds a path separator,
/// so it always names exactly one directory below the overlay root.
pub proof fn lemma_normalized_ref_is_one_component(ref_name: Seq<char>)
    ensures
        normalize_overlay_ref_spec(ref_name).len() > 0,
        !normalize_overlay_ref_spec(ref_name).contains('/'),
{
    lemma_encode_ref_bytes_no_slash(encode_utf8(ref_name));
    reveal_strlit("default");
}

/// Characters kept as they are in an overlay directory name.
pub open spec fn is_safe_ref_char(c: char) -> bool {
    ('A' <= c && c <= 'Z') || ('a' <= c && c <= 'z') || ('0' <= c && c <= '9') || c == '.' || c
        == '_' || c == '-'
}

proof fn lemma_safe_char_byte(c: char)
    requires
        is_safe_ref_char(c),
    ensures
        is_safe_ref_byte(c as u8),
        ((c as u8) as u32) as char == c,
        '\0' <= c <= '\u{7f}',
{
}

proof fn lemma_encode_safe_ascii(r: Seq<char>)
    requires
        forall|i: int| 0 <= i < r.len() ==> is_safe_ref_char(#[trigger] r[i]),
    ensures
        encode_ref_bytes(r.map_values(|c: char| c as u8)) == r,
    decreases r.len(),
{
    if r.len() > 0 {
        let bs = r.map_values(|c: char| c as u8);
        assert(bs.drop_last() =~= r.drop_last().map_values(|c: char| c as u8));
        lemma_encode_safe_ascii(r.drop_last());
        let c = r.last();
        lemma_safe_char_byte(c);
        assert(r.drop_last() + seq![c] =~= r);
    }
}

/// A non-empty ref made only of `[A-Za-z0-9._-]` is its own overlay
/// directory name.
pub proof fn lemma_safe_ref_unchanged(ref_name: Seq<char>)
    requires
        ref_name.len() > 0,
        forall|i: int| 0 <= i < ref_name.len() ==> is_safe_ref_char(#[trigger] ref_name[i]),
    ensures
        normalize_overlay_ref_spec(ref_name) == ref_name,
{
    assert forall|i: int| 0 <= i < ref_name.len() implies '\0' <= #[trigger] ref_name[i]
        <= '\u{7f}' by {
        lemma_safe_char_byte(ref_name[i]);
    }
    assert(is_ascii_chars(ref_name));
    is_ascii_chars_encode_utf8(ref_name);
    assert(encode_utf8(ref_name) =~= ref_name.map_values(|c: char| c as u8));
    lemma_encode_safe_ascii(ref_name);
}

/// The name the previous overlay is moved to while a new one is published:
/// its own name (`overlay` when it has none), `.bak.` and the sync id.
pub open spec fn backup_name_spec(overlay_name: Option<Seq<char>>, sync_id: Seq<char>) -> Seq<char> {
    let base = match overlay_name {
        Some(n) => n,
        None => "overlay"@,
    };
    base + ".bak."@ + sync_id
}

pub fn backup_dir_name(overlay_name: Option<&str>, sync_id: &str) -> (r: String)
    ensures
        r@ == backup_name_spec(
            match overlay_name {
                Some(n) => Some(n@),
                None => None,
            },
            sync_id@,
        ),
{
    let mut name = match overlay_name {
        Some(n) => n.to_owned(),
        None => "overlay".to_owned(),
    };
    push_text(&mut name, ".bak.");
    push_text(&mut name, sync_id);
    name
}

} // verus!
