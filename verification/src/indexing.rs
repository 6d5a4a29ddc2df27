//! Decisions of an indexing run: which ref it writes, whether it syncs an
//! overlay instead, the job id, recovery of incompatible indices, which
//! manifest entries are gone, when a file is unchanged, and the text kept
//! for each file.

use vstd::prelude::*;
use crate::errors::StateError;
use crate::ids::{blake3_hex_of_text, blake3_hex_text};
use crate::text::{chars_of, join, join_v, lines, lines_v, push_text, str_eq, string_of, trim, trim_v, views};
use crate::tool_calls::opt_str;

verus! {

/// The ref an index run writes: the requested one, else (in a git
/// repository) the current branch when it can be detected, else the
/// project's default ref.
pub open spec fn index_ref_spec(
    requested: Option<Seq<char>>,
    is_git_repo: bool,
    head_branch: Option<Seq<char>>,
    default_ref: Seq<char>,
) -> Seq<char> {
    match requested {
        Some(r) => r,
        None => if is_git_repo {
            match head_branch {
                Some(b) => b,
                None => default_ref,
            }
        } else {
            default_ref
        },
    }
}

pub fn index_effective_ref(
    requested: Option<&str>,
    is_git_repo: bool,
    head_branch: Option<&str>,
    default_ref: &str,
) -> (r: String)
    ensures
        r@ == index_ref_spec(
            match requested {
                Some(s) => Some(s@),
                None => None,
            },
            is_git_repo,
            match head_branch {
                Some(s) => Some(s@),
                None => None,
            },
            default_ref@,
        ),
{
    match requested {
        Some(r) => r.to_owned(),
        None => {
            if is_git_repo {
                match head_branch {
                    Some(b) => b.to_owned(),
                    None => default_ref.to_owned(),
                }
            } else {
                default_ref.to_owned()
            }
        },
    }
}

/// A version-controlled project indexes refs other than its default one as
/// incremental overlays.
pub fn uses_overlay_sync(vcs_mode: bool, effective_ref: &str, default_ref: &str) -> (r: bool)
    ensures
        r == (vcs_mode && effective_ref@ != default_ref@),
{
    vcs_mode && !str_eq(effective_ref, default_ref)
}

/// The id of an overlay sync run.
pub fn overlay_sync_id(job_id: &str) -> (r: String)
    ensures
        r@ == "sync-"@ + job_id@,
{
    let mut s = "sync-".to_owned();
    push_text(&mut s, job_id);
    s
}

/// The job id of an index run: the one the launcher passed down unless blank,
/// else a freshly generated one.
pub fn index_job_id(provided: Option<&str>, generated: &str) -> (r: String)
    ensures
        r@ == match provided {
            Some(p) => if trim(p@).len() > 0 {
                p@
            } else {
                generated@
            },
            None => generated@,
        },
{
    match provided {
        Some(p) => {
            if trim_v(&chars_of(p)).len() > 0 {
                p.to_owned()
            } else {
                generated.to_owned()
            }
        },
        None => generated.to_owned(),
    }
}

/// A forced run rebuilds indices that failed to open because their schema
/// is outdated or their metadata corrupted.
pub fn rebuild_incompatible_on_force(force: bool, open_error: &StateError) -> (r: bool)
    ensures
        r == (force && (open_error is SchemaMigrationRequired || open_error is CorruptManifest)),
{
    force && match open_error {
        StateError::SchemaMigrationRequired { .. } => true,
        StateError::CorruptManifest(_) => true,
        _ => false,
    }
}

/// Manifest paths, in order, that the scan no longer found.
pub open spec fn gone_paths(manifest: Seq<Seq<char>>, scanned: Seq<Seq<char>>, k: int) -> Seq<Seq<char>>
    decreases k,
{
    if k <= 0 {
        Seq::empty()
    } else if scanned.contains(manifest[k - 1]) {
        gone_paths(manifest, scanned, k - 1)
    } else {
        gone_paths(manifest, scanned, k - 1).push(manifest[k - 1])
    }
}

fn scanned_contains(scanned: &Vec<String>, path: &str) -> (r: bool)
    ensures
        r == scanned@.map_values(|s: String| s@).contains(path@),
{
    let ghost sv = scanned@.map_values(|s: String| s@);
    let mut i: usize = 0;
    while i < scanned.len()
        invariant
            i <= scanned.len(),
            sv == scanned@.map_values(|s: String| s@),
            forall|j: int| 0 <= j < i ==> sv[j] != path@,
        decreases scanned.len() - i,
    {
        if str_eq(scanned[i].as_str(), path) {
            assert(sv[i as int] == path@);
            return true;
        }
        i = i + 1;
    }
    false
}

/// Entries of the manifest whose files the scan did not find (their index
/// data is removed).
pub fn stale_manifest_paths(manifest: &Vec<String>, scanned: &Vec<String>) -> (r: Vec<String>)
    ensures
        r@.map_values(|s: String| s@) == gone_paths(
            manifest@.map_values(|s: String| s@),
            scanned@.map_values(|s: String| s@),
            manifest.len() as int,
        ),
{
    let ghost mv = manifest@.map_values(|s: String| s@);
    let ghost sv = scanned@.map_values(|s: String| s@);
    let mut out: Vec<String> = Vec::new();
    let mut i: usize = 0;
    while i < manifest.len()
        invariant
            i <= manifest.len(),
            mv == manifest@.map_values(|s: String| s@),
            sv == scanned@.map_values(|s: String| s@),
            out@.map_values(|s: String| s@) == gone_paths(mv, sv, i as int),
        decreases manifest.len() - i,
    {
        assert(mv[i as int] == manifest@[i as int]@);
        if !scanned_contains(scanned, manifest[i].as_str()) {
            let ghost before = out@.map_values(|s: String| s@);
            out.push(manifest[i].clone());
            assert(out@.map_values(|s: String| s@) =~= before.push(mv[i as int]));
        }
        i = i + 1;
    }
    out
}

/// The content hash of a file: the lower-case hex BLAKE3 digest of its text.
pub fn content_hash(content: &str) -> (r: String)
    ensures
        r@ == blake3_hex_of_text(content@),
        r@.len() == 64,
{
    string_of(&blake3_hex_text(&chars_of(content)))
}

/// An incremental run skips a file whose stored hash equals its new one.
pub open spec fn unchanged_spec(force: bool, stored_hash: Option<Seq<char>>, new_hash: Seq<char>) -> bool {
    !force && stored_hash == Some(new_hash)
}

pub fn file_unchanged(force: bool, stored_hash: Option<&str>, new_hash: &str) -> (r: bool)
    ensures
        r == unchanged_spec(force, opt_str(stored_hash), new_hash@),
{
    if force {
        return false;
    }
    match stored_hash {
        Some(h) => str_eq(h, new_hash),
        None => false,
    }
}

/// Change detection: an incremental run skips a file whose content is the
/// one it was last indexed with (the stored hash is that content's hash),
/// and a forced run skips nothing.
pub proof fn lemma_unchanged_content_is_skipped(content: Seq<char>, stored: Option<Seq<char>>, new_hash: Seq<char>)
    ensures
        unchanged_spec(false, Some(blake3_hex_of_text(content)), blake3_hex_of_text(content)),
        !unchanged_spec(true, stored, new_hash),
{
}

/// The head of a file kept with its record: its first 20 lines joined by
/// newlines.
pub fn content_head(content: &str) -> (r: String)
    ensures
        r@ == join(
            if lines(content@).len() > 20 {
                lines(content@).take(20)
            } else {
                lines(content@)
            },
            "\n"@,
        ),
{
    let all = lines_v(&chars_of(content));
    let mut head: Vec<Vec<char>> = Vec::new();
    let mut i: usize = 0;
    while i < all.len() && i < 20
        invariant
            i <= all.len(),
            i <= 20,
            views(head@) == views(all@).take(i as int),
        decreases all.len() - i,
    {
        let ghost before = views(head@);
        head.push(all[i].clone());
        assert(views(head@) =~= before.push(all@[i as int]@));
        assert(views(head@) =~= views(all@).take(i + 1));
        i = i + 1;
    }
    if all.len() <= 20 {
        assert(views(all@).take(i as int) =~= views(all@));
    }
    string_of(&join_v(&head, &chars_of("\n")))
}

/// The commit an index run records: the current commit in a git repository
/// when it can be detected, else the ref's name.
pub fn indexed_commit(is_git_repo: bool, head_commit: Option<&str>, effective_ref: &str) -> (r: String)
    ensures
        r@ == (if is_git_repo {
            match head_commit {
                Some(c) => c@,
                None => effective_ref@,
            }
        } else {
            effective_ref@
        }),
{
    if is_git_repo {
        match head_commit {
            Some(c) => c.to_owned(),
            None => effective_ref.to_owned(),
        }
    } else {
        effective_ref.to_owned()
    }
}

/// Progress of an index run is recorded every this many indexed files.
pub const PROGRESS_UPDATE_EVERY: u64 = 100;

/// Whether progress is recorded once `indexed_count` files are indexed.
pub fn progress_update_due(indexed_count: u64) -> (r: bool)
    ensures
        r == (indexed_count % PROGRESS_UPDATE_EVERY == 0),
{
    indexed_count % PROGRESS_UPDATE_EVERY == 0
}

} // verus!
