//! Error types of every layer, the protocol error code registry, and the
//! messages errors render to.

use vstd::prelude::*;
use crate::text::{chars_of, concat, decimal, decimal_v, string_of};

verus! {

#[verifier::external_type_specification]
#[verifier::external_body]
pub struct ExIoError(std::io::Error);

/// Top-level error of every layer.
#[derive(Debug)]
pub enum Error {
    Config(ConfigError),
    State(StateError),
    Index(IndexError),
    Parse(ParseError),
    Query(QueryError),
    Mcp(McpError),
    Vcs(VcsError),
    Workspace(WorkspaceError),
}

#[derive(Debug)]
pub enum WorkspaceError {
    NotRegistered { path: String },
    NotAllowed { path: String, reason: String },
    AutoDiscoveryDisabled,
    LimitExceeded { max: usize },
    AllowedRootRequired,
}

/// Canonical protocol-level error codes shared by MCP/HTTP transports.
#[derive(Debug, Clone, Copy, PartialEq, Eq, Hash, Structural)]
pub enum ProtocolErrorCode {
    InvalidInput,
    InvalidStrategy,
    InvalidMaxTokens,
    ProjectNotFound,
    WorkspaceNotRegistered,
    WorkspaceNotAllowed,
    WorkspaceLimitExceeded,
    IndexInProgress,
    IndexNotReady,
    SyncInProgress,
    IndexStale,
    IndexIncompatible,
    RefNotIndexed,
    OverlayNotReady,
    MergeBaseFailed,
    SymbolNotFound,
    AmbiguousSymbol,
    FileNotFound,
    ResultNotFound,
    NoEdgesAvailable,
    InternalError,
}

/// Registry name of a protocol error code.
pub open spec fn protocol_code_name(c: ProtocolErrorCode) -> Seq<char> {
    match c {
        ProtocolErrorCode::InvalidInput => "invalid_input"@,
        ProtocolErrorCode::InvalidStrategy => "invalid_strategy"@,
        ProtocolErrorCode::InvalidMaxTokens => "invalid_max_tokens"@,
        ProtocolErrorCode::ProjectNotFound => "project_not_found"@,
        ProtocolErrorCode::WorkspaceNotRegistered => "workspace_not_registered"@,
        ProtocolErrorCode::WorkspaceNotAllowed => "workspace_not_allowed"@,
        ProtocolErrorCode::WorkspaceLimitExceeded => "workspace_limit_exceeded"@,
        ProtocolErrorCode::IndexInProgress => "index_in_progress"@,
        ProtocolErrorCode::IndexNotReady => "index_not_ready"@,
        ProtocolErrorCode::SyncInProgress => "sync_in_progress"@,
        ProtocolErrorCode::IndexStale => "index_stale"@,
        ProtocolErrorCode::IndexIncompatible => "index_incompatible"@,
        ProtocolErrorCode::RefNotIndexed => "ref_not_indexed"@,
        ProtocolErrorCode::OverlayNotReady => "overlay_not_ready"@,
        ProtocolErrorCode::MergeBaseFailed => "merge_base_failed"@,
        ProtocolErrorCode::SymbolNotFound => "symbol_not_found"@,
        ProtocolErrorCode::AmbiguousSymbol => "ambiguous_symbol"@,
        ProtocolErrorCode::FileNotFound => "file_not_found"@,
        ProtocolErrorCode::ResultNotFound => "result_not_found"@,
        ProtocolErrorCode::NoEdgesAvailable => "no_edges_available"@,
        ProtocolErrorCode::InternalError => "internal_error"@,
    }
}

/// The code a registry name denotes.
pub open spec fn protocol_code_of(s: Seq<char>) -> Option<ProtocolErrorCode> {
    if s == "invalid_input"@ {
        Some(ProtocolErrorCode::InvalidInput)
    } else if s == "invalid_strategy"@ {
        Some(ProtocolErrorCode::InvalidStrategy)
    } else if s == "invalid_max_tokens"@ {
        Some(ProtocolErrorCode::InvalidMaxTokens)
    } else if s == "project_not_found"@ {
        Some(ProtocolErrorCode::ProjectNotFound)
    } else if s == "workspace_not_registered"@ {
        Some(ProtocolErrorCode::WorkspaceNotRegistered)
    } else if s == "workspace_not_allowed"@ {
        Some(ProtocolErrorCode::WorkspaceNotAllowed)
    } else if s == "workspace_limit_exceeded"@ {
        Some(ProtocolErrorCode::WorkspaceLimitExceeded)
    } else if s == "index_in_progress"@ {
        Some(ProtocolErrorCode::IndexInProgress)
    } else if s == "index_not_ready"@ {
        Some(ProtocolErrorCode::IndexNotReady)
    } else if s == "sync_in_progress"@ {
        Some(ProtocolErrorCode::SyncInProgress)
    } else if s == "index_stale"@ {
        Some(ProtocolErrorCode::IndexStale)
    } else if s == "index_incompatible"@ {
        Some(ProtocolErrorCode::IndexIncompatible)
    } else if s == "ref_not_indexed"@ {
        Some(ProtocolErrorCode::RefNotIndexed)
    } else if s == "overlay_not_ready"@ {
        Some(ProtocolErrorCode::OverlayNotReady)
    } else if s == "merge_base_failed"@ {
        Some(ProtocolErrorCode::MergeBaseFailed)
    } else if s == "symbol_not_found"@ {
        Some(ProtocolErrorCode::SymbolNotFound)
    } else if s == "ambiguous_symbol"@ {
        Some(ProtocolErrorCode::AmbiguousSymbol)
    } else if s == "file_not_found"@ {
        Some(ProtocolErrorCode::FileNotFound)
    } else if s == "result_not_found"@ {
        Some(ProtocolErrorCode::ResultNotFound)
    } else if s == "no_edges_available"@ {
        Some(ProtocolErrorCode::NoEdgesAvailable)
    } else if s == "internal_error"@ {
        Some(ProtocolErrorCode::InternalError)
    } else {
        None
    }
}

impl ProtocolErrorCode {
    pub fn as_str(self) -> (r: &'static str)
        ensures
            r@ == protocol_code_name(self),
    {
        match self {
            ProtocolErrorCode::InvalidInput => "invalid_input",
            ProtocolErrorCode::InvalidStrategy => "invalid_strategy",
            ProtocolErrorCode::InvalidMaxTokens => "invalid_max_tokens",
            ProtocolErrorCode::ProjectNotFound => "project_not_found",
            ProtocolErrorCode::WorkspaceNotRegistered => "workspace_not_registered",
            ProtocolErrorCode::WorkspaceNotAllowed => "workspace_not_allowed",
            ProtocolErrorCode::WorkspaceLimitExceeded => "workspace_limit_exceeded",
            ProtocolErrorCode::IndexInProgress => "index_in_progress",
            ProtocolErrorCode::IndexNotReady => "index_not_ready",
            ProtocolErrorCode::SyncInProgress => "sync_in_progress",
            ProtocolErrorCode::IndexStale => "index_stale",
            ProtocolErrorCode::IndexIncompatible => "index_incompatible",
            ProtocolErrorCode::RefNotIndexed => "ref_not_indexed",
            ProtocolErrorCode::OverlayNotReady => "overlay_not_ready",
            ProtocolErrorCode::MergeBaseFailed => "merge_base_failed",
            ProtocolErrorCode::SymbolNotFound => "symbol_not_found",
            ProtocolErrorCode::AmbiguousSymbol => "ambiguous_symbol",
            ProtocolErrorCode::FileNotFound => "file_not_found",
            ProtocolErrorCode::ResultNotFound => "result_not_found",
            ProtocolErrorCode::NoEdgesAvailable => "no_edges_available",
            ProtocolErrorCode::InternalError => "internal_error",
        }
    }
}

/// Every code's registry name names that code alone: reading a name back
/// gives the code, so no two codes share a name.
pub proof fn lemma_protocol_code_names_distinct(c: ProtocolErrorCode)
    ensures
        protocol_code_of(protocol_code_name(c)) == Some(c),
{
    reveal_strlit("invalid_input");
    reveal_strlit("invalid_strategy");
    reveal_strlit("invalid_max_tokens");
    reveal_strlit("project_not_found");
    reveal_strlit("workspace_not_registered");
    reveal_strlit("workspace_not_allowed");
    reveal_strlit("workspace_limit_exceeded");
    reveal_strlit("index_in_progress");
    reveal_strlit("index_not_ready");
    reveal_strlit("sync_in_progress");
    reveal_strlit("index_stale");
    reveal_strlit("index_incompatible");
    reveal_strlit("ref_not_indexed");
    reveal_strlit("overlay_not_ready");
    reveal_strlit("merge_base_failed");
    reveal_strlit("symbol_not_found");
    reveal_strlit("ambiguous_symbol");
    reveal_strlit("file_not_found");
    reveal_strlit("result_not_found");
    reveal_strlit("no_edges_available");
    reveal_strlit("internal_error");
    let n = protocol_code_name(c);
    match c {
        ProtocolErrorCode::InvalidInput => {
        },
        ProtocolErrorCode::InvalidStrategy => {
            assert(n[8] != "invalid_input"@[8]);
        },
        ProtocolErrorCode::InvalidMaxTokens => {
            assert(n[8] != "invalid_input"@[8]);
            assert(n[8] != "invalid_strategy"@[8]);
        },
        ProtocolErrorCode::ProjectNotFound => {
            assert(n[0] != "invalid_input"@[0]);
            assert(n[0] != "invalid_strategy"@[0]);
            assert(n[0] != "invalid_max_tokens"@[0]);
        },
        ProtocolErrorCode::WorkspaceNotRegistered => {
            assert(n[0] != "invalid_input"@[0]);
            assert(n[0] != "invalid_strategy"@[0]);
            assert(n[0] != "invalid_max_tokens"@[0]);
            assert(n[0] != "project_not_found"@[0]);
        },
        ProtocolErrorCode::WorkspaceNotAllowed => {
            assert(n[0] != "invalid_input"@[0]);
            assert(n[0] != "invalid_strategy"@[0]);
            assert(n[0] != "invalid_max_tokens"@[0]);
            assert(n[0] != "project_not_found"@[0]);
            assert(n[14] != "workspace_not_registered"@[14]);
        },
        ProtocolErrorCode::WorkspaceLimitExceeded => {
            assert(n[0] != "invalid_input"@[0]);
            assert(n[0] != "invalid_strategy"@[0]);
            assert(n[0] != "invalid_max_tokens"@[0]);
            assert(n[0] != "project_not_found"@[0]);
            assert(n[10] != "workspace_not_registered"@[10]);
            assert(n[10] != "workspace_not_allowed"@[10]);
        },
        ProtocolErrorCode::IndexInProgress => {
            assert(n[2] != "invalid_input"@[2]);
            assert(n[2] != "invalid_strategy"@[2]);
            assert(n[2] != "invalid_max_tokens"@[2]);
            assert(n[0] != "project_not_found"@[0]);
            assert(n[0] != "workspace_not_registered"@[0]);
            assert(n[0] != "workspace_not_allowed"@[0]);
            assert(n[0] != "workspace_limit_exceeded"@[0]);
        },
        ProtocolErrorCode::IndexNotReady => {
            assert(n[2] != "invalid_input"@[2]);
            assert(n[2] != "invalid_strategy"@[2]);
            assert(n[2] != "invalid_max_tokens"@[2]);
            assert(n[0] != "project_not_found"@[0]);
            assert(n[0] != "workspace_not_registered"@[0]);
            assert(n[0] != "workspace_not_allowed"@[0]);
            assert(n[0] != "workspace_limit_exceeded"@[0]);
            assert(n[6] != "index_in_progress"@[6]);
        },
        ProtocolErrorCode::SyncInProgress => {
            assert(n[0] != "invalid_input"@[0]);
            assert(n[0] != "invalid_strategy"@[0]);
            assert(n[0] != "invalid_max_tokens"@[0]);
            assert(n[0] != "project_not_found"@[0]);
            assert(n[0] != "workspace_not_registered"@[0]);
            assert(n[0] != "workspace_not_allowed"@[0]);
            assert(n[0] != "workspace_limit_exceeded"@[0]);
            assert(n[0] != "index_in_progress"@[0]);
            assert(n[0] != "index_not_ready"@[0]);
        },
        ProtocolErrorCode::IndexStale => {
            assert(n[2] != "invalid_input"@[2]);
            assert(n[2] != "invalid_strategy"@[2]);
            assert(n[2] != "invalid_max_tokens"@[2]);
            assert(n[0] != "project_not_found"@[0]);
            assert(n[0] != "workspace_not_registered"@[0]);
            assert(n[0] != "workspace_not_allowed"@[0]);
            assert(n[0] != "workspace_limit_exceeded"@[0]);
            assert(n[6] != "index_in_progress"@[6]);
            assert(n[6] != "index_not_ready"@[6]);
            assert(n[0] != "sync_in_progress"@[0]);
        },
        ProtocolErrorCode::IndexIncompatible => {
            assert(n[2] != "invalid_input"@[2]);
            assert(n[2] != "invalid_strategy"@[2]);
            assert(n[2] != "invalid_max_tokens"@[2]);
            assert(n[0] != "project_not_found"@[0]);
            assert(n[0] != "workspace_not_registered"@[0]);
            assert(n[0] != "workspace_not_allowed"@[0]);
            assert(n[0] != "workspace_limit_exceeded"@[0]);
            assert(n[8] != "index_in_progress"@[8]);
            assert(n[6] != "index_not_ready"@[6]);
            assert(n[0] != "sync_in_progress"@[0]);
            assert(n[6] != "index_stale"@[6]);
        },
        ProtocolErrorCode::RefNotIndexed => {
            assert(n[0] != "invalid_input"@[0]);
            assert(n[0] != "invalid_strategy"@[0]);
            assert(n[0] != "invalid_max_tokens"@[0]);
            assert(n[0] != "project_not_found"@[0]);
            assert(n[0] != "workspace_not_registered"@[0]);
            assert(n[0] != "workspace_not_allowed"@[0]);
            assert(n[0] != "workspace_limit_exceeded"@[0]);
            assert(n[0] != "index_in_progress"@[0]);
            assert(n[0] != "index_not_ready"@[0]);
            assert(n[0] != "sync_in_progress"@[0]);
            assert(n[0] != "index_stale"@[0]);
            assert(n[0] != "index_incompatible"@[0]);
        },
        ProtocolErrorCode::OverlayNotReady => {
            assert(n[0] != "invalid_input"@[0]);
            assert(n[0] != "invalid_strategy"@[0]);
            assert(n[0] != "invalid_max_tokens"@[0]);
            assert(n[0] != "project_not_found"@[0]);
            assert(n[0] != "workspace_not_registered"@[0]);
            assert(n[0] != "workspace_not_allowed"@[0]);
            assert(n[0] != "workspace_limit_exceeded"@[0]);
            assert(n[0] != "index_in_progress"@[0]);
            assert(n[0] != "index_not_ready"@[0]);
            assert(n[0] != "sync_in_progress"@[0]);
            assert(n[0] != "index_stale"@[0]);
            assert(n[0] != "index_incompatible"@[0]);
            assert(n[0] != "ref_not_indexed"@[0]);
        },
        ProtocolErrorCode::MergeBaseFailed => {
            assert(n[0] != "invalid_input"@[0]);
            assert(n[0] != "invalid_strategy"@[0]);
            assert(n[0] != "invalid_max_tokens"@[0]);
            assert(n[0] != "project_not_found"@[0]);
            assert(n[0] != "workspace_not_registered"@[0]);
            assert(n[0] != "workspace_not_allowed"@[0]);
            assert(n[0] != "workspace_limit_exceeded"@[0]);
            assert(n[0] != "index_in_progress"@[0]);
            assert(n[0] != "index_not_ready"@[0]);
            assert(n[0] != "sync_in_progress"@[0]);
            assert(n[0] != "index_stale"@[0]);
            assert(n[0] != "index_incompatible"@[0]);
            assert(n[0] != "ref_not_indexed"@[0]);
            assert(n[0] != "overlay_not_ready"@[0]);
        },
        ProtocolErrorCode::SymbolNotFound => {
            assert(n[0] != "invalid_input"@[0]);
            assert(n[0] != "invalid_strategy"@[0]);
            assert(n[0] != "invalid_max_tokens"@[0]);
            assert(n[0] != "project_not_found"@[0]);
            assert(n[0] != "workspace_not_registered"@[0]);
            assert(n[0] != "workspace_not_allowed"@[0]);
            assert(n[0] != "workspace_limit_exceeded"@[0]);
            assert(n[0] != "index_in_progress"@[0]);
            assert(n[0] != "index_not_ready"@[0]);
            assert(n[2] != "sync_in_progress"@[2]);
            assert(n[0] != "index_stale"@[0]);
            assert(n[0] != "index_incompatible"@[0]);
            assert(n[0] != "ref_not_indexed"@[0]);
            assert(n[0] != "overlay_not_ready"@[0]);
            assert(n[0] != "merge_base_failed"@[0]);
        },
        ProtocolErrorCode::AmbiguousSymbol => {
            assert(n[0] != "invalid_input"@[0]);
            assert(n[0] != "invalid_strategy"@[0]);
            assert(n[0] != "invalid_max_tokens"@[0]);
            assert(n[0] != "project_not_found"@[0]);
            assert(n[0] != "workspace_not_registered"@[0]);
            assert(n[0] != "workspace_not_allowed"@[0]);
            assert(n[0] != "workspace_limit_exceeded"@[0]);
            assert(n[0] != "index_in_progress"@[0]);
            assert(n[0] != "index_not_ready"@[0]);
            assert(n[0] != "sync_in_progress"@[0]);
            assert(n[0] != "index_stale"@[0]);
            assert(n[0] != "index_incompatible"@[0]);
            assert(n[0] != "ref_not_indexed"@[0]);
            assert(n[0] != "overlay_not_ready"@[0]);
            assert(n[0] != "merge_base_failed"@[0]);
            assert(n[0] != "symbol_not_found"@[0]);
        },
        ProtocolErrorCode::FileNotFound => {
            assert(n[0] != "invalid_input"@[0]);
            assert(n[0] != "invalid_strategy"@[0]);
            assert(n[0] != "invalid_max_tokens"@[0]);
            assert(n[0] != "project_not_found"@[0]);
            assert(n[0] != "workspace_not_registered"@[0]);
            assert(n[0] != "workspace_not_allowed"@[0]);
            assert(n[0] != "workspace_limit_exceeded"@[0]);
            assert(n[0] != "index_in_progress"@[0]);
            assert(n[0] != "index_not_ready"@[0]);
            assert(n[0] != "sync_in_progress"@[0]);
            assert(n[0] != "index_stale"@[0]);
            assert(n[0] != "index_incompatible"@[0]);
            assert(n[0] != "ref_not_indexed"@[0]);
            assert(n[0] != "overlay_not_ready"@[0]);
            assert(n[0] != "merge_base_failed"@[0]);
            assert(n[0] != "symbol_not_found"@[0]);
            assert(n[0] != "ambiguous_symbol"@[0]);
        },
        ProtocolErrorCode::ResultNotFound => {
            assert(n[0] != "invalid_input"@[0]);
            assert(n[0] != "invalid_strategy"@[0]);
            assert(n[0] != "invalid_max_tokens"@[0]);
            assert(n[0] != "project_not_found"@[0]);
            assert(n[0] != "workspace_not_registered"@[0]);
            assert(n[0] != "workspace_not_allowed"@[0]);
            assert(n[0] != "workspace_limit_exceeded"@[0]);
            assert(n[0] != "index_in_progress"@[0]);
            assert(n[0] != "index_not_ready"@[0]);
            assert(n[0] != "sync_in_progress"@[0]);
            assert(n[0] != "index_stale"@[0]);
            assert(n[0] != "index_incompatible"@[0]);
            assert(n[2] != "ref_not_indexed"@[2]);
            assert(n[0] != "overlay_not_ready"@[0]);
            assert(n[0] != "merge_base_failed"@[0]);
            assert(n[0] != "symbol_not_found"@[0]);
            assert(n[0] != "ambiguous_symbol"@[0]);
            assert(n[0] != "file_not_found"@[0]);
        },
        ProtocolErrorCode::NoEdgesAvailable => {
            assert(n[0] != "invalid_input"@[0]);
            assert(n[0] != "invalid_strategy"@[0]);
            assert(n[0] != "invalid_max_tokens"@[0]);
            assert(n[0] != "project_not_found"@[0]);
            assert(n[0] != "workspace_not_registered"@[0]);
            assert(n[0] != "workspace_not_allowed"@[0]);
            assert(n[0] != "workspace_limit_exceeded"@[0]);
            assert(n[0] != "index_in_progress"@[0]);
            assert(n[0] != "index_not_ready"@[0]);
            assert(n[0] != "sync_in_progress"@[0]);
            assert(n[0] != "index_stale"@[0]);
            assert(n[0] != "index_incompatible"@[0]);
            assert(n[0] != "ref_not_indexed"@[0]);
            assert(n[0] != "overlay_not_ready"@[0]);
            assert(n[0] != "merge_base_failed"@[0]);
            assert(n[0] != "symbol_not_found"@[0]);
            assert(n[0] != "ambiguous_symbol"@[0]);
            assert(n[0] != "file_not_found"@[0]);
            assert(n[0] != "result_not_found"@[0]);
        },
        ProtocolErrorCode::InternalError => {
            assert(n[2] != "invalid_input"@[2]);
            assert(n[2] != "invalid_strategy"@[2]);
            assert(n[2] != "invalid_max_tokens"@[2]);
            assert(n[0] != "project_not_found"@[0]);
            assert(n[0] != "workspace_not_registered"@[0]);
            assert(n[0] != "workspace_not_allowed"@[0]);
            assert(n[0] != "workspace_limit_exceeded"@[0]);
            assert(n[2] != "index_in_progress"@[2]);
            assert(n[2] != "index_not_ready"@[2]);
            assert(n[0] != "sync_in_progress"@[0]);
            assert(n[2] != "index_stale"@[2]);
            assert(n[2] != "index_incompatible"@[2]);
            assert(n[0] != "ref_not_indexed"@[0]);
            assert(n[0] != "overlay_not_ready"@[0]);
            assert(n[0] != "merge_base_failed"@[0]);
            assert(n[0] != "symbol_not_found"@[0]);
            assert(n[0] != "ambiguous_symbol"@[0]);
            assert(n[0] != "file_not_found"@[0]);
            assert(n[0] != "result_not_found"@[0]);
            assert(n[0] != "no_edges_available"@[0]);
        },
    }
}

#[derive(Debug)]
pub enum ConfigError {
    NotFound { path: String },
    ParseError(String),
    InvalidValue { field: String, reason: String },
    Io(std::io::Error),
}

#[derive(Debug)]
pub enum StateError {
    Sqlite(String),
    Tantivy(String),
    Vcs(String),
    SyncInProgress { project_id: String, ref_name: String, job_id: String },
    MaintenanceLockBusy { operation: String, lock_path: String },
    RefNotIndexed { project_id: String, ref_name: String },
    OverlayNotReady { project_id: String, ref_name: String, reason: String },
    MergeBaseFailed { base_ref: String, head_ref: String, reason: String },
    ResultNotFound { path: String, line_start: u32 },
    ProjectNotFound { project_id: String },
    ProjectAlreadyExists { repo_root: String },
    SchemaMigrationRequired { current: u32, required: u32 },
    CorruptManifest(String),
    Io(std::io::Error),
}

/// `t` is the text an I/O error displays, as its `to_string` gives it.
pub open spec fn io_error_displays(e: std::io::Error, t: Seq<char>) -> bool {
    exists|s: String|
        #[trigger] vstd::string::to_string_from_display_ensures::<std::io::Error>(&e, s) && s@ == t
}

/// The text a state error displays, for every variant but `Io` (whose text
/// comes from the operating system error it wraps).
pub open spec fn state_error_message(e: StateError) -> Seq<char> {
    match e {
        StateError::Sqlite(s) => "sqlite error: "@ + s@,
        StateError::Tantivy(s) => "tantivy error: "@ + s@,
        StateError::Vcs(s) => "vcs error: "@ + s@,
        StateError::SyncInProgress { project_id, ref_name, job_id } => "sync in progress: project_id="@
            + project_id@ + ", ref="@ + ref_name@ + ", job_id="@ + job_id@,
        StateError::MaintenanceLockBusy {
            operation,
            lock_path,
        } => "maintenance lock busy: operation="@ + operation@ + ", lock_path="@ + lock_path@,
        StateError::RefNotIndexed { project_id, ref_name } => "ref not indexed: project_id="@
            + project_id@ + ", ref="@ + ref_name@,
        StateError::OverlayNotReady {
            project_id,
            ref_name,
            reason,
        } => "overlay not ready: project_id="@ + project_id@ + ", ref="@ + ref_name@ + ", reason="@
            + reason@,
        StateError::MergeBaseFailed { base_ref, head_ref, reason } => "merge base failed: base_ref="@
            + base_ref@ + ", head_ref="@ + head_ref@ + ", reason="@ + reason@,
        StateError::ResultNotFound { path, line_start } => "result not found: path="@ + path@
            + ", line_start="@ + decimal(line_start as nat),
        StateError::ProjectNotFound { project_id } => "project not found: "@ + project_id@,
        StateError::ProjectAlreadyExists { repo_root } => "project already exists: "@ + repo_root@,
        StateError::SchemaMigrationRequired {
            current,
            required,
        } => "schema migration required: current="@ + decimal(current as nat) + ", required="@
            + decimal(required as nat),
        StateError::CorruptManifest(s) => "corrupt manifest: "@ + s@,
        StateError::Io(_) => "io error: "@,
    }
}

fn cat(a: Vec<char>, b: &str) -> (r: Vec<char>)
    ensures
        r@ == a@ + b@,
{
    concat(&a, &chars_of(b))
}

fn cat_v(a: Vec<char>, b: &Vec<char>) -> (r: Vec<char>)
    ensures
        r@ == a@ + b@,
{
    concat(&a, b)
}

fn owned(s: &str) -> (r: String)
    ensures
        r@ == s@,
{
    string_of(&chars_of(s))
}

impl StateError {
    /// Convenience constructor for SQLite errors.
    pub fn sqlite(e: &str) -> (r: Self)
        ensures
            r matches StateError::Sqlite(s) && s@ == e@,
    {
        StateError::Sqlite(owned(e))
    }

    /// Convenience constructor for Tantivy errors.
    pub fn tantivy(e: &str) -> (r: Self)
        ensures
            r matches StateError::Tantivy(s) && s@ == e@,
    {
        StateError::Tantivy(owned(e))
    }

    /// Convenience constructor for VCS errors.
    pub fn vcs(e: &str) -> (r: Self)
        ensures
            r matches StateError::Vcs(s) && s@ == e@,
    {
        StateError::Vcs(owned(e))
    }

    pub fn sync_in_progress(project_id: &str, ref_name: &str, job_id: &str) -> (r: Self)
        ensures
            r matches StateError::SyncInProgress { project_id: p, ref_name: rn, job_id: j } && p@
                == project_id@ && rn@ == ref_name@ && j@ == job_id@,
    {
        StateError::SyncInProgress {
            project_id: owned(project_id),
            ref_name: owned(ref_name),
            job_id: owned(job_id),
        }
    }

    pub fn ref_not_indexed(project_id: &str, ref_name: &str) -> (r: Self)
        ensures
            r matches StateError::RefNotIndexed { project_id: p, ref_name: rn } && p@ == project_id@
                && rn@ == ref_name@,
    {
        StateError::RefNotIndexed { project_id: owned(project_id), ref_name: owned(ref_name) }
    }

    pub fn overlay_not_ready(project_id: &str, ref_name: &str, reason: &str) -> (r: Self)
        ensures
            r matches StateError::OverlayNotReady { project_id: p, ref_name: rn, reason: rs } && p@
                == project_id@ && rn@ == ref_name@ && rs@ == reason@,
    {
        StateError::OverlayNotReady {
            project_id: owned(project_id),
            ref_name: owned(ref_name),
            reason: owned(reason),
        }
    }

    pub fn merge_base_failed(base_ref: &str, head_ref: &str, reason: &str) -> (r: Self)
        ensures
            r matches StateError::MergeBaseFailed { base_ref: b, head_ref: h, reason: rs } && b@
                == base_ref@ && h@ == head_ref@ && rs@ == reason@,
    {
        StateError::MergeBaseFailed {
            base_ref: owned(base_ref),
            head_ref: owned(head_ref),
            reason: owned(reason),
        }
    }

    pub fn result_not_found(path: &str, line_start: u32) -> (r: Self)
        ensures
            r matches StateError::ResultNotFound { path: p, line_start: l } && p@ == path@ && l
                == line_start,
    {
        StateError::ResultNotFound { path: owned(path), line_start }
    }

    pub fn maintenance_lock_busy(operation: &str, lock_path: &str) -> (r: Self)
        ensures
            r matches StateError::MaintenanceLockBusy { operation: o, lock_path: l } && o@
                == operation@ && l@ == lock_path@,
    {
        StateError::MaintenanceLockBusy { operation: owned(operation), lock_path: owned(lock_path) }
    }

    /// The text this error displays.
    pub fn message(&self) -> (r: String)
        ensures
            !(self is Io) ==> r@ == state_error_message(*self),
            self is Io ==> r@.len() >= 10 && r@.take(10) == "io error: "@,
            self matches StateError::Io(e) ==> io_error_displays(*e, r@.skip(10)),
    {
        let v = match self {
            StateError::Sqlite(s) => cat(chars_of("sqlite error: "), s.as_str()),
            StateError::Tantivy(s) => cat(chars_of("tantivy error: "), s.as_str()),
            StateError::Vcs(s) => cat(chars_of("vcs error: "), s.as_str()),
            StateError::SyncInProgress { project_id, ref_name, job_id } => {
                let a = cat(chars_of("sync in progress: project_id="), project_id.as_str());
                let b = cat(cat(a, ", ref="), ref_name.as_str());
                cat(cat(b, ", job_id="), job_id.as_str())
            },
            StateError::MaintenanceLockBusy { operation, lock_path } => {
                let a = cat(chars_of("maintenance lock busy: operation="), operation.as_str());
                cat(cat(a, ", lock_path="), lock_path.as_str())
            },
            StateError::RefNotIndexed { project_id, ref_name } => {
                let a = cat(chars_of("ref not indexed: project_id="), project_id.as_str());
                cat(cat(a, ", ref="), ref_name.as_str())
            },
            StateError::OverlayNotReady { project_id, ref_name, reason } => {
                let a = cat(chars_of("overlay not ready: project_id="), project_id.as_str());
                let b = cat(cat(a, ", ref="), ref_name.as_str());
                cat(cat(b, ", reason="), reason.as_str())
            },
            StateError::MergeBaseFailed { base_ref, head_ref, reason } => {
                let a = cat(chars_of("merge base failed: base_ref="), base_ref.as_str());
                let b = cat(cat(a, ", head_ref="), head_ref.as_str());
                cat(cat(b, ", reason="), reason.as_str())
            },
            StateError::ResultNotFound { path, line_start } => {
                let a = cat(chars_of("result not found: path="), path.as_str());
                cat_v(cat(a, ", line_start="), &decimal_v(*line_start as u64))
            },
            StateError::ProjectNotFound { project_id } => cat(
                chars_of("project not found: "),
                project_id.as_str(),
            ),
            StateError::ProjectAlreadyExists { repo_root } => cat(
                chars_of("project already exists: "),
                repo_root.as_str(),
            ),
            StateError::SchemaMigrationRequired { current, required } => {
                let a = cat_v(
                    chars_of("schema migration required: current="),
                    &decimal_v(*current as u64),
                );
                cat_v(cat(a, ", required="), &decimal_v(*required as u64))
            },
            StateError::CorruptManifest(s) => cat(chars_of("corrupt manifest: "), s.as_str()),
            StateError::Io(e) => {
                let text = e.to_string();
                proof {
                    reveal_strlit("io error: ");
                }
                let r = cat(chars_of("io error: "), text.as_str());
                assert(r@.take(10) =~= "io error: "@);
                assert(r@.skip(10) =~= text@);
                assert(io_error_displays(*e, r@.skip(10)));
                r
            },
        };
        string_of(&v)
    }
}

#[derive(Debug)]
pub enum IndexError {
    InProgress { job_id: String },
    Incompatible { reason: String },
    FileTooLarge { path: String, size: u64 },
    UnsupportedLanguage { language: String },
    Io(std::io::Error),
    State(StateError),
}

#[derive(Debug)]
pub enum ParseError {
    TreeSitterFailed { path: String },
    GrammarNotAvailable { language: String },
    Io(std::io::Error),
}

#[derive(Debug)]
pub enum QueryError {
    IndexNotReady(String),
    InvalidQuery(String),
    State(StateError),
}

#[derive(Debug)]
pub enum McpError {
    InvalidRequest(String),
    MethodNotFound { method: String },
    Internal(String),
    Io(std::io::Error),
}

#[derive(Debug)]
pub enum VcsError {
    NotGitRepo { path: String },
    GitError(String),
}

} // verus!
