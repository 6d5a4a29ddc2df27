//! Decisions of setting up a project: the default ref a new project gets,
//! how the indexer is launched for a newly discovered workspace, and how rows
//! of an imported state bundle are moved to the local project's id.

use vstd::prelude::*;
use crate::constants::REF_LIVE;
use crate::text::push_text;

verus! {

/// The default ref of a new project: the current branch of a git
/// repository (`main` when it cannot be detected), else `live`.
pub open spec fn new_project_default_ref_spec(is_vcs_repo: bool, head_branch: Option<Seq<char>>) -> Seq<
    char,
> {
    if is_vcs_repo {
        match head_branch {
            Some(b) => b,
            None => "main"@,
        }
    } else {
        REF_LIVE@
    }
}

pub fn new_project_default_ref(is_vcs_repo: bool, head_branch: Option<&str>) -> (r: String)
    ensures
        r@ == new_project_default_ref_spec(
            is_vcs_repo,
            match head_branch {
                Some(b) => Some(b@),
                None => None,
            },
        ),
{
    if is_vcs_repo {
        match head_branch {
            Some(b) => b.to_owned(),
            None => "main".to_owned(),
        }
    } else {
        REF_LIVE.to_owned()
    }
}

/// The arguments the indexer is launched with for a workspace: `index
/// --path <workspace>`, then `--config <file>` when the project has a
/// configuration file.
pub open spec fn indexer_args_spec(workspace: Seq<char>, config_file: Option<Seq<char>>) -> Seq<Seq<char>> {
    let base = seq!["index"@, "--path"@, workspace];
    match config_file {
        Some(c) => base + seq!["--config"@, c],
        None => base,
    }
}

pub fn indexer_args(workspace: &str, config_file: Option<&str>) -> (r: Vec<String>)
    ensures
        r@.map_values(|s: String| s@) == indexer_args_spec(
            workspace@,
            match config_file {
                Some(c) => Some(c@),
                None => None,
            },
        ),
{
    let mut args: Vec<String> = vec!["index".to_owned(), "--path".to_owned(), workspace.to_owned()];
    match config_file {
        Some(c) => {
            args.push("--config".to_owned());
            args.push(c.to_owned());
        },
        None => {},
    }
    assert(args@.map_values(|s: String| s@) =~= indexer_args_spec(
        workspace@,
        match config_file {
            Some(c) => Some(c@),
            None => None,
        },
    ));
    args
}

/// The tables whose `repo` column names the project.
pub open spec fn remapped_repo_tables() -> Seq<Seq<char>> {
    seq![
        "file_manifest"@,
        "symbol_relations"@,
        "symbol_edges"@,
        "branch_state"@,
        "branch_tombstones"@,
        "worktree_leases"@,
    ]
}

/// The statement that moves a table's rows from the imported project id
/// (`?2`) to the local one (`?1`).
pub open spec fn remap_statement(table: Seq<char>) -> Seq<char> {
    "UPDATE "@ + table + " SET repo = ?1 WHERE repo = ?2"@
}

fn remap_statement_v(table: &str) -> (r: String)
    ensures
        r@ == remap_statement(table@),
{
    let mut s = "UPDATE ".to_owned();
    push_text(&mut s, table);
    push_text(&mut s, " SET repo = ?1 WHERE repo = ?2");
    s
}

/// The statements that move every project-scoped table to the local id, in
/// order.
pub fn repo_table_remap_statements() -> (r: Vec<String>)
    ensures
        r@.map_values(|s: String| s@) == remapped_repo_tables().map_values(
            |t: Seq<char>| remap_statement(t),
        ),
{
    let r = vec![
        remap_statement_v("file_manifest"),
        remap_statement_v("symbol_relations"),
        remap_statement_v("symbol_edges"),
        remap_statement_v("branch_state"),
        remap_statement_v("branch_tombstones"),
        remap_statement_v("worktree_leases"),
    ];
    assert(r@.map_values(|s: String| s@) =~= remapped_repo_tables().map_values(
        |t: Seq<char>| remap_statement(t),
    ));
    r
}

/// Rows are moved only when the bundle's project id differs from the local
/// one.
pub fn needs_project_remap(imported_project_id: &str, local_project_id: &str) -> (r: bool)
    ensures
        r == (imported_project_id@ != local_project_id@),
{
    !crate::text::str_eq(imported_project_id, local_project_id)
}

} // verus!
