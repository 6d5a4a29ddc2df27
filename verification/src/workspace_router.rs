//! Routing of a tool call's `workspace` argument to a project: the default
//! workspace, a registered one, or a newly discovered one under the allowed
//! roots. The file system and the state database are consulted by the
//! caller; each decision between those steps is made here.

use vstd::prelude::*;
use crate::errors::WorkspaceError;
use crate::ids::{project_id_for_root, project_id_spec};
use crate::paths::{path_join, path_join_v, path_parent, path_parent_v, path_starts_with, path_starts_with_v, same_path, same_path_v};
use crate::text::{chars_of, push_text, string_of, trim, trim_v};
use crate::types::{under_some_root, WorkspaceConfig};

verus! {

/// The project context a workspace argument resolves to.
#[derive(Debug, Clone)]
pub struct ResolvedWorkspace {
    pub workspace_path: String,
    pub project_id: String,
    /// Query and status tools report "indexing" with partial results.
    pub on_demand_indexing: bool,
    /// This request launches bootstrap indexing.
    pub should_bootstrap: bool,
}

/// Resolves workspace arguments against the default workspace and the
/// configured roots.
#[derive(Debug)]
pub struct WorkspaceRouter {
    config: WorkspaceConfig,
    default_workspace: String,
    default_project_id: String,
    db_path: String,
    data_root: String,
}

pub open spec fn data_root_of(db_path: Seq<char>) -> Option<Seq<char>> {
    match path_parent(db_path) {
        Some(p) => path_parent(p),
        None => None,
    }
}

pub open spec fn invalid_db_path_reason() -> Seq<char> {
    "invalid state.db path; expected <data_root>/data/<project_id>/state.db"@
}

impl WorkspaceRouter {
    /// The data root lies two levels above the state database, and the
    /// default project id has its 16 hex digits.
    #[verifier::type_invariant]
    spec fn well_formed(self) -> bool {
        &&& data_root_of(self.db_path@) == Some(self.data_root@)
        &&& self.default_project_id@.len() == 16
    }

    pub closed spec fn config_spec(&self) -> WorkspaceConfig {
        self.config
    }

    pub closed spec fn default_workspace_spec(&self) -> Seq<char> {
        self.default_workspace@
    }

    pub closed spec fn default_project_id_spec(&self) -> Seq<char> {
        self.default_project_id@
    }

    pub closed spec fn db_path_spec(&self) -> Seq<char> {
        self.db_path@
    }

    pub closed spec fn data_root_spec(&self) -> Seq<char> {
        self.data_root@
    }

    /// Create a router. `canonical_default` is the canonical form of the
    /// default workspace, when it could be resolved; the default project id
    /// hashes it (or the path as given). Auto-discovery needs at least one
    /// allowed root, and the state database must lie two levels below the
    /// data root.
    pub fn new(
        config: WorkspaceConfig,
        default_workspace: String,
        db_path: String,
        canonical_default: Option<String>,
    ) -> (r: Result<Self, WorkspaceError>)
        ensures
            config.auto_workspace && config.allowed_roots@.len() == 0 ==> r matches Err(
                WorkspaceError::AllowedRootRequired,
            ),
            !(config.auto_workspace && config.allowed_roots@.len() == 0) && data_root_of(db_path@)
                is None ==> (r matches Err(WorkspaceError::NotAllowed { path, reason }) && path@
                == db_path@ && reason@ == invalid_db_path_reason()),
            !(config.auto_workspace && config.allowed_roots@.len() == 0) && data_root_of(db_path@)
                is Some ==> (r matches Ok(router) && router.config_spec() == config
                && router.default_workspace_spec() == default_workspace@
                && router.default_project_id_spec() == project_id_spec(
                match canonical_default {
                    Some(c) => c@,
                    None => default_workspace@,
                },
            ) && router.db_path_spec() == db_path@ && router.data_root_spec() == data_root_of(
                db_path@,
            )->0),
    {
        if config.auto_workspace && config.allowed_roots.is_empty() {
            return Err(WorkspaceError::AllowedRootRequired);
        }
        let default_project_id = match &canonical_default {
            Some(c) => project_id_for_root(c.as_str()),
            None => project_id_for_root(default_workspace.as_str()),
        };
        let db = chars_of(db_path.as_str());
        let data_root = match path_parent_v(&db) {
            Some(parent) => path_parent_v(&parent),
            None => None,
        };
        match data_root {
            Some(root) => Ok(
                WorkspaceRouter {
                    config,
                    default_workspace,
                    default_project_id,
                    db_path,
                    data_root: string_of(&root),
                },
            ),
            None => Err(
                WorkspaceError::NotAllowed {
                    path: db_path,
                    reason: "invalid state.db path; expected <data_root>/data/<project_id>/state.db".to_owned(),
                },
            ),
        }
    }

    pub fn default_workspace(&self) -> (r: &str)
        ensures
            r@ == self.default_workspace_spec(),
    {
        self.default_workspace.as_str()
    }

    pub fn default_project_id(&self) -> (r: &str)
        ensures
            r@ == self.default_project_id_spec(),
            r@.len() == 16,
    {
        proof {
            use_type_invariant(self);
        }
        self.default_project_id.as_str()
    }

    pub fn config(&self) -> (r: &WorkspaceConfig)
        ensures
            *r == self.config_spec(),
    {
        &self.config
    }

    pub fn db_path(&self) -> (r: &str)
        ensures
            r@ == self.db_path_spec(),
    {
        self.db_path.as_str()
    }

    pub fn data_root(&self) -> (r: &str)
        ensures
            r@ == self.data_root_spec(),
            data_root_of(self.db_path_spec()) == Some(r@),
    {
        proof {
            use_type_invariant(self);
        }
        self.data_root.as_str()
    }

    /// The default workspace's context.
    pub fn default_resolution(&self) -> (r: ResolvedWorkspace)
        ensures
            r.workspace_path@ == self.default_workspace_spec(),
            r.project_id@ == self.default_project_id_spec(),
            !r.on_demand_indexing,
            !r.should_bootstrap,
    {
        ResolvedWorkspace {
            workspace_path: self.default_workspace.clone(),
            project_id: self.default_project_id.clone(),
            on_demand_indexing: false,
            should_bootstrap: false,
        }
    }

    /// The default context when `canonical` names the default workspace.
    pub fn resolve_default(&self, canonical: &str) -> (r: Option<ResolvedWorkspace>)
        ensures
            same_path(canonical@, self.default_workspace_spec()) ==> (r matches Some(w)
                && w.workspace_path@ == self.default_workspace_spec() && w.project_id@
                == self.default_project_id_spec() && !w.on_demand_indexing && !w.should_bootstrap),
            !same_path(canonical@, self.default_workspace_spec()) ==> r is None,
    {
        if same_path_v(&chars_of(canonical), &chars_of(self.default_workspace.as_str())) {
            Some(self.default_resolution())
        } else {
            None
        }
    }

    /// Whether an unregistered workspace may be discovered: auto-discovery
    /// must be on, and the path must lie under an allowed root.
    pub fn admit_unknown(&self, canonical: &str) -> (r: Result<(), WorkspaceError>)
        ensures
            !self.config_spec().auto_workspace ==> (r matches Err(
                WorkspaceError::NotRegistered { path },
            ) && path@ == canonical@),
            self.config_spec().auto_workspace && !under_some_root(
                self.config_spec().allowed_roots@,
                canonical@,
            ) ==> (r matches Err(WorkspaceError::NotAllowed { path, reason }) && path@
                == canonical@ && reason@ == "path is outside all --allowed-root prefixes"@),
            self.config_spec().auto_workspace && under_some_root(
                self.config_spec().allowed_roots@,
                canonical@,
            ) ==> r is Ok,
    {
        if !self.config.auto_workspace {
            return Err(WorkspaceError::NotRegistered { path: canonical.to_owned() });
        }
        if !self.config.allowed_roots.contains(canonical) {
            return Err(
                WorkspaceError::NotAllowed {
                    path: canonical.to_owned(),
                    reason: "path is outside all --allowed-root prefixes".to_owned(),
                },
            );
        }
        Ok(())
    }

    /// How many auto-discovered workspaces to keep before registering a new
    /// one.
    pub fn eviction_keep(&self) -> (r: usize)
        ensures
            r == (if self.config_spec().max_auto_workspaces > 0 {
                self.config_spec().max_auto_workspaces - 1
            } else {
                0
            }),
    {
        if self.config.max_auto_workspaces > 0 {
            self.config.max_auto_workspaces - 1
        } else {
            0
        }
    }

    /// The index data directory of an evicted workspace (given by its
    /// canonical path), and whether it lies under the data root so that it
    /// may be removed.
    pub fn evicted_data_dir(&self, canonical_evicted: &str) -> (r: (String, bool))
        ensures
            r.0@ == path_join(self.data_root_spec(), project_id_spec(canonical_evicted@)),
            r.1 == path_starts_with(r.0@, self.data_root_spec()),
    {
        let pid = project_id_for_root(canonical_evicted);
        let root = chars_of(self.data_root.as_str());
        let dir = path_join_v(&root, &chars_of(pid.as_str()));
        let inside = path_starts_with_v(&dir, &root);
        (string_of(&dir), inside)
    }
}

/// The workspace argument, trimmed, unless absent or blank (the default
/// workspace is meant then).
pub fn requested_workspace(param: Option<&str>) -> (r: Option<String>)
    ensures
        match param {
            Some(p) => if trim(p@).len() > 0 {
                r matches Some(s) && s@ == trim(p@)
            } else {
                r is None
            },
            None => r is None,
        },
{
    match param {
        Some(p) => {
            let t = trim_v(&chars_of(p));
            if t.len() > 0 {
                Some(string_of(&t))
            } else {
                None
            }
        },
        None => None,
    }
}

/// The step of workspace resolution that failed.
#[derive(Debug, Clone, Copy, PartialEq, Eq, Structural)]
pub enum ResolveStep {
    /// Canonicalizing the path.
    PathResolution,
    /// Opening or reading the state database.
    Database,
    /// Registering the workspace.
    Register,
    /// Claiming the bootstrap launch.
    ClaimBootstrap,
}

pub open spec fn resolve_step_text(step: ResolveStep) -> Seq<char> {
    match step {
        ResolveStep::PathResolution => "path resolution failed: "@,
        ResolveStep::Database => "database error: "@,
        ResolveStep::Register => "failed to register workspace: "@,
        ResolveStep::ClaimBootstrap => "failed to claim workspace bootstrap: "@,
    }
}

/// The error for a failed resolution step on `path`, with the failure's
/// text.
pub fn resolution_error(step: ResolveStep, path: &str, detail: &str) -> (r: WorkspaceError)
    ensures
        r matches WorkspaceError::NotAllowed { path: p, reason } && p@ == path@ && reason@
            == resolve_step_text(step) + detail@,
{
    let mut reason = match step {
        ResolveStep::PathResolution => "path resolution failed: ".to_owned(),
        ResolveStep::Database => "database error: ".to_owned(),
        ResolveStep::Register => "failed to register workspace: ".to_owned(),
        ResolveStep::ClaimBootstrap => "failed to claim workspace bootstrap: ".to_owned(),
    };
    push_text(&mut reason, detail);
    WorkspaceError::NotAllowed { path: path.to_owned(), reason }
}

/// A registered workspace's context: its bound project, or, while it has
/// none yet (bootstrap under way), the id its path hashes to with on-demand
/// semantics.
pub fn resolve_known(canonical: &str, bound_project_id: Option<String>) -> (r: ResolvedWorkspace)
    ensures
        r.workspace_path@ == canonical@,
        r.project_id@ == match bound_project_id {
            Some(p) => p@,
            None => project_id_spec(canonical@),
        },
        r.on_demand_indexing == bound_project_id is None,
        !r.should_bootstrap,
{
    let on_demand = bound_project_id.is_none();
    let project_id = match bound_project_id {
        Some(p) => p,
        None => project_id_for_root(canonical),
    };
    ResolvedWorkspace {
        workspace_path: canonical.to_owned(),
        project_id,
        on_demand_indexing: on_demand,
        should_bootstrap: false,
    }
}

/// A newly registered workspace's context. When another request already
/// bound a project to it, that project with on-demand semantics unless this
/// request won the bootstrap claim, and no bootstrap; otherwise the id its
/// path hashes to, on demand, bootstrapping when this request won the claim.
pub fn resolve_registered(
    canonical: &str,
    should_bootstrap: bool,
    bound_project_id: Option<String>,
) -> (r: ResolvedWorkspace)
    ensures
        r.workspace_path@ == canonical@,
        bound_project_id matches Some(p) ==> (r.project_id@ == p@ && r.on_demand_indexing
            == !should_bootstrap && !r.should_bootstrap),
        bound_project_id is None ==> r.project_id@ == project_id_spec(canonical@)
            && r.on_demand_indexing && r.should_bootstrap == should_bootstrap,
{
    match bound_project_id {
        Some(p) => ResolvedWorkspace {
            workspace_path: canonical.to_owned(),
            project_id: p,
            on_demand_indexing: !should_bootstrap,
            should_bootstrap: false,
        },
        None => ResolvedWorkspace {
            workspace_path: canonical.to_owned(),
            project_id: project_id_for_root(canonical),
            on_demand_indexing: true,
            should_bootstrap,
        },
    }
}

} // verus!
