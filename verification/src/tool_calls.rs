//! Decisions shared by the query and index tools: argument parsing,
//! request validation, error mapping, result de-duplication, the response
//! size budget and the follow-up actions offered to callers.

use vstd::prelude::*;
use crate::config::{parse_ranking_explain_level, parse_ranking_explain_level_spec, Config};
use crate::constants::DEFAULT_MAX_RESPONSE_BYTES;
use crate::errors::{io_error_displays, state_error_message, ProtocolErrorCode, StateError};
use crate::text::{
    chars_of, decimal, decimal_v, eq_v, lemma_decimal_digits, lemma_decimal_injective, lemma_split_at_char,
    push_chars, push_text, starts_with, str_eq, trim, trim_v, views,
};
use crate::types::{DetailLevel, RankingExplainLevel, SchemaStatus};

verus! {

// ---------------------------------------------------------------------------
// Tool arguments
// ---------------------------------------------------------------------------

/// The detail level named by a `detail_level` argument; `signature` when it
/// is absent or names no level.
pub open spec fn detail_level_spec(raw: Option<&str>) -> DetailLevel {
    match raw {
        Some(s) => if s@ == "location"@ {
            DetailLevel::Location
        } else if s@ == "context"@ {
            DetailLevel::Context
        } else {
            DetailLevel::Signature
        },
        None => DetailLevel::Signature,
    }
}

/// Parse the `detail_level` argument (its text, when it is a string).
pub fn parse_detail_level(raw: Option<&str>) -> (r: DetailLevel)
    ensures
        r == detail_level_spec(raw),
{
    match raw {
        Some(s) => {
            if str_eq(s, "location") {
                DetailLevel::Location
            } else if str_eq(s, "context") {
                DetailLevel::Context
            } else {
                DetailLevel::Signature
            }
        },
        None => DetailLevel::Signature,
    }
}

/// Results are enriched with body previews and relations only at the
/// `context` detail level, and not in compact form.
pub fn enriches_context(detail_level: DetailLevel, compact: bool) -> (r: bool)
    ensures
        r == (detail_level == DetailLevel::Context && !compact),
{
    match detail_level {
        DetailLevel::Context => !compact,
        _ => false,
    }
}

/// Parse the `compact` argument (its value, when it is a boolean).
pub fn parse_compact(raw: Option<bool>) -> (r: bool)
    ensures
        r == (raw == Some(true)),
{
    match raw {
        Some(b) => b,
        None => false,
    }
}

pub open spec fn invalid_ranking_level_message() -> Seq<char> {
    "Parameter `ranking_explain_level` must be `off`, `basic`, or `full`."@
}

/// The ranking explanation level of a request: the argument when given (an
/// error when it names no level), else the configured level, where the
/// legacy `debug.ranking_reasons` flag turns `off` into `full`.
pub open spec fn ranking_level_spec(explicit: Option<&str>, config: Config) -> Result<
    RankingExplainLevel,
    Seq<char>,
> {
    match explicit {
        Some(raw) => match parse_ranking_explain_level_spec(raw@) {
            Some(l) => Ok(l),
            None => Err(invalid_ranking_level_message()),
        },
        None => {
            let level = match parse_ranking_explain_level_spec(config.search.ranking_explain_level@) {
                Some(l) => l,
                None => RankingExplainLevel::Off,
            };
            if level == RankingExplainLevel::Off && config.debug.ranking_reasons {
                Ok(RankingExplainLevel::Full)
            } else {
                Ok(level)
            }
        },
    }
}

pub fn resolve_ranking_explain_level(explicit: Option<&str>, config: &Config) -> (r: Result<
    RankingExplainLevel,
    String,
>)
    ensures
        match (r, ranking_level_spec(explicit, *config)) {
            (Ok(a), Ok(b)) => a == b,
            (Err(m), Err(n)) => m@ == n,
            _ => false,
        },
{
    match explicit {
        Some(raw) => match parse_ranking_explain_level(raw) {
            Some(l) => Ok(l),
            None => Err(
                "Parameter `ranking_explain_level` must be `off`, `basic`, or `full`.".to_owned(),
            ),
        },
        None => {
            let level = config.search.ranking_explain_level_typed();
            if level == RankingExplainLevel::Off && config.debug.ranking_reasons {
                Ok(RankingExplainLevel::Full)
            } else {
                Ok(level)
            }
        },
    }
}

// ---------------------------------------------------------------------------
// Follow-up actions
// ---------------------------------------------------------------------------

/// A follow-up call suggested to the client.
#[derive(Debug)]
pub struct SuggestedAction {
    pub tool: String,
    pub name: Option<String>,
    pub query: Option<String>,
    pub ref_name: Option<String>,
    pub limit: Option<usize>,
}

pub ghost struct SuggestedActionView {
    pub tool: Seq<char>,
    pub name: Option<Seq<char>>,
    pub query: Option<Seq<char>>,
    pub ref_name: Option<Seq<char>>,
    pub limit: Option<usize>,
}

pub open spec fn opt_text(o: Option<String>) -> Option<Seq<char>> {
    match o {
        Some(s) => Some(s@),
        None => None,
    }
}

impl View for SuggestedAction {
    type V = SuggestedActionView;

    open spec fn view(&self) -> SuggestedActionView {
        SuggestedActionView {
            tool: self.tool@,
            name: opt_text(self.name),
            query: opt_text(self.query),
            ref_name: opt_text(self.ref_name),
            limit: self.limit,
        }
    }
}

pub open spec fn action_views(v: Seq<SuggestedAction>) -> Seq<SuggestedActionView> {
    v.map_values(|a: SuggestedAction| a@)
}

fn copy_text(o: &Option<String>) -> (r: Option<String>)
    ensures
        opt_text(r) == opt_text(*o),
{
    match o {
        Some(s) => Some(s.clone()),
        None => None,
    }
}

impl SuggestedAction {
    /// A copy with the same fields.
    pub fn duplicate(&self) -> (r: SuggestedAction)
        ensures
            r@ == self@,
    {
        SuggestedAction {
            tool: self.tool.clone(),
            name: copy_text(&self.name),
            query: copy_text(&self.query),
            ref_name: copy_text(&self.ref_name),
            limit: self.limit,
        }
    }
}

/// The `search_code` follow-up offered when a search response was cut by the
/// size budget and the engine suggested nothing itself.
pub open spec fn search_followup(query: Seq<char>, ref_name: Seq<char>, limit: usize) -> SuggestedActionView {
    SuggestedActionView {
        tool: "search_code"@,
        name: None,
        query: Some(query),
        ref_name: Some(ref_name),
        limit: Some(
            ((if limit >= 1 {
                limit as int
            } else {
                1
            }) / 2 + 1) as usize,
        ),
    }
}

/// Follow-ups of a truncated search: the engine's own suggestions when it
/// made any, else one narrower `search_code` call.
pub fn deterministic_suggested_actions(
    existing: &Vec<SuggestedAction>,
    query: &str,
    effective_ref: &str,
    limit: usize,
) -> (r: Vec<SuggestedAction>)
    ensures
        existing.len() > 0 ==> action_views(r@) == action_views(existing@),
        existing.len() == 0 ==> action_views(r@) == seq![search_followup(query@, effective_ref@, limit)],
{
    if existing.len() > 0 {
        let mut out: Vec<SuggestedAction> = Vec::new();
        let mut i: usize = 0;
        while i < existing.len()
            invariant
                i <= existing.len(),
                action_views(out@) == action_views(existing@).take(i as int),
            decreases existing.len() - i,
        {
            out.push(existing[i].duplicate());
            assert(action_views(existing@).take(i + 1) =~= action_views(existing@).take(
                i as int,
            ).push(existing@[i as int]@));
            assert(action_views(out@) =~= action_views(existing@).take(i as int).push(
                existing@[i as int]@,
            ));
            i = i + 1;
        }
        assert(action_views(existing@).take(existing.len() as int) =~= action_views(existing@));
        return out;
    }
    let base: usize = if limit >= 1 {
        limit
    } else {
        1
    };
    let out = vec![
        SuggestedAction {
            tool: "search_code".to_owned(),
            name: None,
            query: Some(query.to_owned()),
            ref_name: Some(effective_ref.to_owned()),
            limit: Some(base / 2 + 1),
        },
    ];
    assert(action_views(out@) =~= seq![search_followup(query@, effective_ref@, limit)]);
    out
}

/// Follow-ups of a truncated symbol lookup: a narrower `locate_symbol` call,
/// then a `search_code` call for the same name.
pub open spec fn locate_followups(name: Seq<char>, ref_name: Seq<char>, limit: usize) -> Seq<
    SuggestedActionView,
> {
    seq![
        SuggestedActionView {
            tool: "locate_symbol"@,
            name: Some(name),
            query: None,
            ref_name: Some(ref_name),
            limit: Some(
                if limit / 2 >= 1 {
                    (limit / 2) as usize
                } else {
                    1usize
                },
            ),
        },
        SuggestedActionView {
            tool: "search_code"@,
            name: None,
            query: Some(name),
            ref_name: Some(ref_name),
            limit: Some(5usize),
        },
    ]
}

pub fn deterministic_locate_suggested_actions(name: &str, effective_ref: &str, limit: usize) -> (r:
    Vec<SuggestedAction>)
    ensures
        action_views(r@) == locate_followups(name@, effective_ref@, limit),
{
    let half = limit / 2;
    let first_limit: usize = if half >= 1 {
        half
    } else {
        1
    };
    let out = vec![
        SuggestedAction {
            tool: "locate_symbol".to_owned(),
            name: Some(name.to_owned()),
            query: None,
            ref_name: Some(effective_ref.to_owned()),
            limit: Some(first_limit),
        },
        SuggestedAction {
            tool: "search_code".to_owned(),
            name: None,
            query: Some(name.to_owned()),
            ref_name: Some(effective_ref.to_owned()),
            limit: Some(5),
        },
    ];
    assert(action_views(out@) =~= locate_followups(name@, effective_ref@, limit));
    out
}


// ---------------------------------------------------------------------------
// Error payloads
// ---------------------------------------------------------------------------

/// The `data` object of a tool error.
#[derive(Debug)]
pub enum ErrorData {
    /// `{"details", "remediation"}`.
    Detail { details: String, remediation: String },
    /// `{"current_schema_version", "required_schema_version", "remediation"}`.
    SchemaVersions { current: u32, required: u32, remediation: String },
    /// `{"workspace", "remediation"}`.
    Workspace { workspace: String, remediation: String },
    /// `{"schema_status", "reason", "remediation"}`.
    Compatibility { schema_status: SchemaStatus, reason: Option<String>, remediation: String },
    /// `{"project_id", "remediation"}`.
    Project { project_id: String, remediation: String },
}

pub ghost enum ErrorDataView {
    Detail { details: Seq<char>, remediation: Seq<char> },
    SchemaVersions { current: u32, required: u32, remediation: Seq<char> },
    Workspace { workspace: Seq<char>, remediation: Seq<char> },
    Compatibility { schema_status: SchemaStatus, reason: Option<Seq<char>>, remediation: Seq<char> },
    Project { project_id: Seq<char>, remediation: Seq<char> },
}

impl View for ErrorData {
    type V = ErrorDataView;

    open spec fn view(&self) -> ErrorDataView {
        match self {
            ErrorData::Detail { details, remediation } => ErrorDataView::Detail {
                details: details@,
                remediation: remediation@,
            },
            ErrorData::SchemaVersions { current, required, remediation } => ErrorDataView::SchemaVersions {
                current: *current,
                required: *required,
                remediation: remediation@,
            },
            ErrorData::Workspace { workspace, remediation } => ErrorDataView::Workspace {
                workspace: workspace@,
                remediation: remediation@,
            },
            ErrorData::Compatibility { schema_status, reason, remediation } => ErrorDataView::Compatibility {
                schema_status: *schema_status,
                reason: opt_text(*reason),
                remediation: remediation@,
            },
            ErrorData::Project { project_id, remediation } => ErrorDataView::Project {
                project_id: project_id@,
                remediation: remediation@,
            },
        }
    }
}

pub open spec fn opt_data(d: Option<ErrorData>) -> Option<ErrorDataView> {
    match d {
        Some(x) => Some(x@),
        None => None,
    }
}

/// The protocol code a state error is reported under.
pub open spec fn state_error_code(e: StateError) -> ProtocolErrorCode {
    match e {
        StateError::SyncInProgress { .. } => ProtocolErrorCode::SyncInProgress,
        StateError::MaintenanceLockBusy { .. } => ProtocolErrorCode::SyncInProgress,
        StateError::RefNotIndexed { .. } => ProtocolErrorCode::RefNotIndexed,
        StateError::OverlayNotReady { .. } => ProtocolErrorCode::OverlayNotReady,
        StateError::MergeBaseFailed { .. } => ProtocolErrorCode::MergeBaseFailed,
        StateError::ResultNotFound { .. } => ProtocolErrorCode::ResultNotFound,
        StateError::SchemaMigrationRequired { .. } => ProtocolErrorCode::IndexIncompatible,
        StateError::CorruptManifest(_) => ProtocolErrorCode::IndexIncompatible,
        _ => ProtocolErrorCode::InternalError,
    }
}

pub open spec fn internal_failure_prefix() -> Seq<char> {
    "Tool execution failed: "@
}

/// The message a state error is reported with (the error's own text follows
/// a fixed prefix for the errors without a dedicated message).
pub open spec fn state_error_summary(e: StateError) -> Seq<char> {
    match e {
        StateError::SyncInProgress { .. } => "A sync job is already active for this project/ref."@,
        StateError::MaintenanceLockBusy { .. } => "Project maintenance is already in progress."@,
        StateError::RefNotIndexed { .. } => "The requested ref has no indexed state yet."@,
        StateError::OverlayNotReady { .. } => "The requested ref overlay is not query-ready yet."@,
        StateError::MergeBaseFailed { .. } => "Unable to compute merge-base for the requested refs."@,
        StateError::ResultNotFound { .. } => "Requested result target was not found."@,
        StateError::SchemaMigrationRequired { .. } => "Index schema is incompatible. Run `codecompass index --force`."@,
        StateError::CorruptManifest(_) => "Index metadata is corrupted. Run `codecompass index --force`."@,
        _ => internal_failure_prefix() + state_error_message(e),
    }
}

pub open spec fn force_reindex_remediation() -> Seq<char> {
    "codecompass index --force"@
}

/// The `data` payload a state error is reported with.
pub open spec fn state_error_data(e: StateError) -> Option<ErrorDataView> {
    match e {
        StateError::SyncInProgress { project_id, ref_name, job_id } => Some(
            ErrorDataView::Detail {
                details: "sync_in_progress: project_id="@ + project_id@ + ", ref="@ + ref_name@
                    + ", job_id="@ + job_id@,
                remediation: "Poll index_status and retry sync_repo after the active sync completes."@,
            },
        ),
        StateError::MaintenanceLockBusy { operation, lock_path } => Some(
            ErrorDataView::Detail {
                details: "maintenance_lock_busy: operation="@ + operation@ + ", lock_path="@
                    + lock_path@,
                remediation: "Retry after the active maintenance operation completes."@,
            },
        ),
        StateError::RefNotIndexed { project_id, ref_name } => Some(
            ErrorDataView::Detail {
                details: "ref_not_indexed: project_id="@ + project_id@ + ", ref="@ + ref_name@,
                remediation: "Run sync_repo for this ref before querying."@,
            },
        ),
        StateError::OverlayNotReady { project_id, ref_name, reason } => Some(
            ErrorDataView::Detail {
                details: "overlay_not_ready: project_id="@ + project_id@ + ", ref="@ + ref_name@
                    + ", "@ + reason@,
                remediation: "Poll index_status until indexing finishes, then retry."@,
            },
        ),
        StateError::MergeBaseFailed { base_ref, head_ref, reason } => Some(
            ErrorDataView::Detail {
                details: "merge_base_failed: base_ref="@ + base_ref@ + ", head_ref="@ + head_ref@
                    + ", reason="@ + reason@,
                remediation: "Validate the refs and repository integrity, then retry."@,
            },
        ),
        StateError::ResultNotFound { path, line_start } => Some(
            ErrorDataView::Detail {
                details: "result_not_found: path="@ + path@ + ", line_start="@ + decimal(
                    line_start as nat,
                ),
                remediation: "Re-run the query and select a valid result from the returned list."@,
            },
        ),
        StateError::SchemaMigrationRequired { current, required } => Some(
            ErrorDataView::SchemaVersions {
                current,
                required,
                remediation: force_reindex_remediation(),
            },
        ),
        StateError::CorruptManifest(details) => Some(
            ErrorDataView::Detail { details: details@, remediation: force_reindex_remediation() },
        ),
        _ => None,
    }
}

fn text_of(parts: &str) -> (r: String)
    ensures
        r@ == parts@,
{
    parts.to_owned()
}

fn detail(details: String, remediation: &str) -> (r: Option<ErrorData>)
    ensures
        opt_data(r) == Some(ErrorDataView::Detail { details: details@, remediation: remediation@ }),
{
    Some(ErrorData::Detail { details, remediation: remediation.to_owned() })
}

/// Map a state error to the protocol code, message and data a tool reports.
pub fn map_state_error(err: &StateError) -> (r: (ProtocolErrorCode, String, Option<ErrorData>))
    ensures
        r.0 == state_error_code(*err),
        !(err is Io) ==> r.1@ == state_error_summary(*err),
        err is Io ==> starts_with(r.1@, internal_failure_prefix() + "io error: "@),
        err matches StateError::Io(e) ==> io_error_displays(*e, r.1@.skip(33)),
        opt_data(r.2) == state_error_data(*err),
{
    match err {
        StateError::SyncInProgress { project_id, ref_name, job_id } => {
            let mut d = text_of("sync_in_progress: project_id=");
            push_text(&mut d, project_id.as_str());
            push_text(&mut d, ", ref=");
            push_text(&mut d, ref_name.as_str());
            push_text(&mut d, ", job_id=");
            push_text(&mut d, job_id.as_str());
            (
                ProtocolErrorCode::SyncInProgress,
                text_of("A sync job is already active for this project/ref."),
                detail(d, "Poll index_status and retry sync_repo after the active sync completes."),
            )
        },
        StateError::MaintenanceLockBusy { operation, lock_path } => {
            let mut d = text_of("maintenance_lock_busy: operation=");
            push_text(&mut d, operation.as_str());
            push_text(&mut d, ", lock_path=");
            push_text(&mut d, lock_path.as_str());
            (
                ProtocolErrorCode::SyncInProgress,
                text_of("Project maintenance is already in progress."),
                detail(d, "Retry after the active maintenance operation completes."),
            )
        },
        StateError::RefNotIndexed { project_id, ref_name } => {
            let mut d = text_of("ref_not_indexed: project_id=");
            push_text(&mut d, project_id.as_str());
            push_text(&mut d, ", ref=");
            push_text(&mut d, ref_name.as_str());
            (
                ProtocolErrorCode::RefNotIndexed,
                text_of("The requested ref has no indexed state yet."),
                detail(d, "Run sync_repo for this ref before querying."),
            )
        },
        StateError::OverlayNotReady { project_id, ref_name, reason } => {
            let mut d = text_of("overlay_not_ready: project_id=");
            push_text(&mut d, project_id.as_str());
            push_text(&mut d, ", ref=");
            push_text(&mut d, ref_name.as_str());
            push_text(&mut d, ", ");
            push_text(&mut d, reason.as_str());
            (
                ProtocolErrorCode::OverlayNotReady,
                text_of("The requested ref overlay is not query-ready yet."),
                detail(d, "Poll index_status until indexing finishes, then retry."),
            )
        },
        StateError::MergeBaseFailed { base_ref, head_ref, reason } => {
            let mut d = text_of("merge_base_failed: base_ref=");
            push_text(&mut d, base_ref.as_str());
            push_text(&mut d, ", head_ref=");
            push_text(&mut d, head_ref.as_str());
            push_text(&mut d, ", reason=");
            push_text(&mut d, reason.as_str());
            (
                ProtocolErrorCode::MergeBaseFailed,
                text_of("Unable to compute merge-base for the requested refs."),
                detail(d, "Validate the refs and repository integrity, then retry."),
            )
        },
        StateError::ResultNotFound { path, line_start } => {
            let mut d = text_of("result_not_found: path=");
            push_text(&mut d, path.as_str());
            push_text(&mut d, ", line_start=");
            push_chars(&mut d, &decimal_v(*line_start as u64));
            (
                ProtocolErrorCode::ResultNotFound,
                text_of("Requested result target was not found."),
                detail(d, "Re-run the query and select a valid result from the returned list."),
            )
        },
        StateError::SchemaMigrationRequired { current, required } => (
            ProtocolErrorCode::IndexIncompatible,
            text_of("Index schema is incompatible. Run `codecompass index --force`."),
            Some(
                ErrorData::SchemaVersions {
                    current: *current,
                    required: *required,
                    remediation: text_of("codecompass index --force"),
                },
            ),
        ),
        StateError::CorruptManifest(details) => (
            ProtocolErrorCode::IndexIncompatible,
            text_of("Index metadata is corrupted. Run `codecompass index --force`."),
            detail(details.clone(), "codecompass index --force"),
        ),
        other => {
            let mut m = text_of("Tool execution failed: ");
            let shown = other.message();
            push_text(&mut m, shown.as_str());
            proof {
                reveal_strlit("Tool execution failed: ");
                reveal_strlit("io error: ");
                if other is Io {
                    assert(shown@.take(10) == "io error: "@);
                    assert(m@.take(33) =~= internal_failure_prefix() + "io error: "@) by {
                        assert(m@ == internal_failure_prefix() + shown@);
                        assert forall|i: int| 0 <= i < 33 implies #[trigger] m@.take(33)[i] == (
                        internal_failure_prefix() + "io error: "@)[i] by {
                            if i >= 23 {
                                assert(m@[i] == shown@[i - 23]);
                                assert(shown@.take(10)[i - 23] == shown@[i - 23]);
                            }
                        }
                    }
                    assert(m@.skip(33) =~= shown@.skip(10));
                }
            }
            (ProtocolErrorCode::InternalError, m, None)
        },
    }
}

// ---------------------------------------------------------------------------
// Request validation
// ---------------------------------------------------------------------------

/// The error a query tool answers with when no usable index is open: project
/// not initialised when nothing is indexed and the workspace is unknown,
/// otherwise an incompatible index with the remediation its status calls for.
pub open spec fn compatibility_failure_spec(
    schema_status: SchemaStatus,
    reason: Option<Seq<char>>,
    project_registered: bool,
    workspace: Seq<char>,
) -> (ProtocolErrorCode, Seq<char>, ErrorDataView) {
    if schema_status == SchemaStatus::NotIndexed && !project_registered {
        (
            ProtocolErrorCode::ProjectNotFound,
            "Project is not initialized for this workspace. Run `codecompass init` first."@,
            ErrorDataView::Workspace {
                workspace,
                remediation: "codecompass init --path <workspace>"@,
            },
        )
    } else {
        let (message, remediation) = match schema_status {
            SchemaStatus::NotIndexed => (
                "No index available. Run `codecompass index`."@,
                "codecompass index"@,
            ),
            SchemaStatus::ReindexRequired => (
                "Index is incompatible. Run `codecompass index --force`."@,
                force_reindex_remediation(),
            ),
            SchemaStatus::CorruptManifest => (
                "Index is incompatible. Run `codecompass index --force`."@,
                force_reindex_remediation(),
            ),
            SchemaStatus::Compatible => ("Index is unavailable."@, "codecompass index"@),
        };
        (
            ProtocolErrorCode::IndexIncompatible,
            message,
            ErrorDataView::Compatibility { schema_status, reason, remediation },
        )
    }
}

pub open spec fn opt_str(o: Option<&str>) -> Option<Seq<char>> {
    match o {
        Some(s) => Some(s@),
        None => None,
    }
}

/// The error of a query tool that finds no usable index.
pub fn tool_compatibility_error(
    schema_status: SchemaStatus,
    compatibility_reason: Option<&str>,
    project_registered: bool,
    workspace: &str,
) -> (r: (ProtocolErrorCode, String, ErrorData))
    ensures
        (r.0, r.1@, r.2@) == compatibility_failure_spec(
            schema_status,
            opt_str(compatibility_reason),
            project_registered,
            workspace@,
        ),
{
    if schema_status == SchemaStatus::NotIndexed && !project_registered {
        return (
            ProtocolErrorCode::ProjectNotFound,
            text_of("Project is not initialized for this workspace. Run `codecompass init` first."),
            ErrorData::Workspace {
                workspace: workspace.to_owned(),
                remediation: text_of("codecompass init --path <workspace>"),
            },
        );
    }
    let (message, remediation) = match schema_status {
        SchemaStatus::NotIndexed => ("No index available. Run `codecompass index`.", "codecompass index"),
        SchemaStatus::ReindexRequired => (
            "Index is incompatible. Run `codecompass index --force`.",
            "codecompass index --force",
        ),
        SchemaStatus::CorruptManifest => (
            "Index is incompatible. Run `codecompass index --force`.",
            "codecompass index --force",
        ),
        SchemaStatus::Compatible => ("Index is unavailable.", "codecompass index"),
    };
    let reason = match compatibility_reason {
        Some(t) => Some(t.to_owned()),
        None => None,
    };
    (
        ProtocolErrorCode::IndexIncompatible,
        text_of(message),
        ErrorData::Compatibility { schema_status, reason, remediation: text_of(remediation) },
    )
}

/// Why a query tool stops before running its query.
#[derive(Debug)]
pub enum PreflightFailure {
    /// An argument is missing or malformed; the message says which.
    InvalidInput(String),
    /// `max_tokens` is invalid (reported as `invalid_max_tokens`).
    InvalidMaxTokens(String),
    /// `strategy` names no strategy (reported as `invalid_strategy`).
    InvalidStrategy(String),
    /// No compatible index is open (answered by `tool_compatibility_error`).
    Incompatible,
}

pub open spec fn required_message(param: Seq<char>) -> Seq<char> {
    "Parameter `"@ + param + "` is required."@
}

/// The checks a query tool makes, in order: its required text argument is
/// not blank, the ranking level argument is valid, an index is open and its
/// schema is compatible. On success, the ranking explanation level.
pub open spec fn query_preflight_spec(
    required_value: Seq<char>,
    required_param: Seq<char>,
    explicit_level: Option<&str>,
    config: Config,
    index_available: bool,
    schema_status: SchemaStatus,
) -> Result<RankingExplainLevel, Option<Seq<char>>> {
    if trim(required_value).len() == 0 {
        Err(Some(required_message(required_param)))
    } else {
        match ranking_level_spec(explicit_level, config) {
            Err(m) => Err(Some(m)),
            Ok(level) => if !index_available || schema_status != SchemaStatus::Compatible {
                Err(None)
            } else {
                Ok(level)
            },
        }
    }
}

pub fn query_preflight(
    required_value: &str,
    required_param: &str,
    explicit_level: Option<&str>,
    config: &Config,
    index_available: bool,
    schema_status: SchemaStatus,
) -> (r: Result<RankingExplainLevel, PreflightFailure>)
    ensures
        match (
            r,
            query_preflight_spec(
                required_value@,
                required_param@,
                explicit_level,
                *config,
                index_available,
                schema_status,
            ),
        ) {
            (Ok(a), Ok(b)) => a == b,
            (Err(PreflightFailure::InvalidInput(m)), Err(Some(n))) => m@ == n,
            (Err(PreflightFailure::Incompatible), Err(None)) => true,
            _ => false,
        },
{
    let trimmed = trim_v(&chars_of(required_value));
    if trimmed.len() == 0 {
        let mut m = text_of("Parameter `");
        push_text(&mut m, required_param);
        push_text(&mut m, "` is required.");
        return Err(PreflightFailure::InvalidInput(m));
    }
    let level = match resolve_ranking_explain_level(explicit_level, config) {
        Ok(l) => l,
        Err(m) => {
            return Err(PreflightFailure::InvalidInput(m));
        },
    };
    if !index_available || schema_status != SchemaStatus::Compatible {
        return Err(PreflightFailure::Incompatible);
    }
    Ok(level)
}

/// The `max_tokens` argument of a context request, as the request holds it.
#[derive(Debug, Clone, Copy)]
pub enum MaxTokensArg {
    Absent,
    /// A non-negative integer.
    Unsigned(u64),
    /// Any other JSON value.
    Other,
}

/// The token budget of a context request: 4000 when absent, the value when
/// it is a positive integer that fits a `usize`, an error otherwise.
pub open spec fn max_tokens_spec(arg: MaxTokensArg) -> Result<usize, Seq<char>> {
    match arg {
        MaxTokensArg::Absent => Ok(4000usize),
        MaxTokensArg::Unsigned(n) => if n == 0 {
            Err("Parameter `max_tokens` must be greater than 0."@)
        } else if n > usize::MAX {
            Err("Parameter `max_tokens` is too large."@)
        } else {
            Ok(n as usize)
        },
        MaxTokensArg::Other => Err("Parameter `max_tokens` must be a positive integer."@),
    }
}

/// Validate `max_tokens`; failures are reported as `invalid_max_tokens`.
pub fn parse_max_tokens(arg: MaxTokensArg) -> (r: Result<usize, String>)
    ensures
        match (r, max_tokens_spec(arg)) {
            (Ok(a), Ok(b)) => a == b,
            (Err(m), Err(n)) => m@ == n,
            _ => false,
        },
{
    match arg {
        MaxTokensArg::Absent => Ok(4000),
        MaxTokensArg::Unsigned(n) => {
            if n == 0 {
                Err(text_of("Parameter `max_tokens` must be greater than 0."))
            } else if (n as u128) > (usize::MAX as u128) {
                Err(text_of("Parameter `max_tokens` is too large."))
            } else {
                Ok(n as usize)
            }
        },
        MaxTokensArg::Other => Err(text_of("Parameter `max_tokens` must be a positive integer.")),
    }
}

/// The checks `get_code_context` makes, in order: the query is not blank,
/// `max_tokens` is valid, the strategy was recognised, an index is open and
/// its schema is compatible. On success, the token budget.
pub open spec fn context_preflight_spec(
    query: Seq<char>,
    max_tokens: MaxTokensArg,
    strategy_ok: bool,
    index_available: bool,
    schema_status: SchemaStatus,
) -> Result<usize, (u8, Seq<char>)> {
    if trim(query).len() == 0 {
        Err((0u8, "Parameter `query` is required."@))
    } else {
        match max_tokens_spec(max_tokens) {
            Err(m) => Err((1u8, m)),
            Ok(budget) => if !strategy_ok {
                Err((2u8, "Parameter `strategy` must be `breadth` or `depth`."@))
            } else if !index_available || schema_status != SchemaStatus::Compatible {
                Err((3u8, Seq::empty()))
            } else {
                Ok(budget)
            },
        }
    }
}

pub fn context_preflight(
    query: &str,
    max_tokens: MaxTokensArg,
    strategy_ok: bool,
    index_available: bool,
    schema_status: SchemaStatus,
) -> (r: Result<usize, PreflightFailure>)
    ensures
        match (r, context_preflight_spec(query@, max_tokens, strategy_ok, index_available, schema_status)) {
            (Ok(a), Ok(b)) => a == b,
            (Err(PreflightFailure::InvalidInput(m)), Err((0u8, n))) => m@ == n,
            (Err(PreflightFailure::InvalidMaxTokens(m)), Err((1u8, n))) => m@ == n,
            (Err(PreflightFailure::InvalidStrategy(m)), Err((2u8, n))) => m@ == n,
            (Err(PreflightFailure::Incompatible), Err((3u8, _))) => true,
            _ => false,
        },
{
    let trimmed = trim_v(&chars_of(query));
    if trimmed.len() == 0 {
        return Err(PreflightFailure::InvalidInput(text_of("Parameter `query` is required.")));
    }
    let budget = match parse_max_tokens(max_tokens) {
        Ok(b) => b,
        Err(m) => {
            return Err(PreflightFailure::InvalidMaxTokens(m));
        },
    };
    if !strategy_ok {
        return Err(
            PreflightFailure::InvalidStrategy(
                text_of("Parameter `strategy` must be `breadth` or `depth`."),
            ),
        );
    }
    if !index_available || schema_status != SchemaStatus::Compatible {
        return Err(PreflightFailure::Incompatible);
    }
    Ok(budget)
}

// ---------------------------------------------------------------------------
// Tool dispatch
// ---------------------------------------------------------------------------

/// The handler a `tools/call` request goes to.
#[derive(Debug, Clone, Copy, PartialEq, Eq, Structural)]
pub enum ToolRoute {
    HealthCheck,
    LocateSymbol,
    SearchCode,
    GetSymbolHierarchy,
    FindRelatedSymbols,
    GetCodeContext,
    DiffContext,
    FindReferences,
    ExplainRanking,
    ListRefs,
    SwitchRef,
    GetFileOutline,
    IndexStatus,
    IndexOperation,
    Unknown,
}

pub open spec fn route_spec(name: Seq<char>) -> ToolRoute {
    if name == "health_check"@ {
        ToolRoute::HealthCheck
    } else if name == "locate_symbol"@ {
        ToolRoute::LocateSymbol
    } else if name == "search_code"@ {
        ToolRoute::SearchCode
    } else if name == "get_symbol_hierarchy"@ {
        ToolRoute::GetSymbolHierarchy
    } else if name == "find_related_symbols"@ {
        ToolRoute::FindRelatedSymbols
    } else if name == "get_code_context"@ {
        ToolRoute::GetCodeContext
    } else if name == "diff_context"@ {
        ToolRoute::DiffContext
    } else if name == "find_references"@ {
        ToolRoute::FindReferences
    } else if name == "explain_ranking"@ {
        ToolRoute::ExplainRanking
    } else if name == "list_refs"@ {
        ToolRoute::ListRefs
    } else if name == "switch_ref"@ {
        ToolRoute::SwitchRef
    } else if name == "get_file_outline"@ {
        ToolRoute::GetFileOutline
    } else if name == "index_status"@ {
        ToolRoute::IndexStatus
    } else if name == "index_repo"@ || name == "sync_repo"@ {
        ToolRoute::IndexOperation
    } else {
        ToolRoute::Unknown
    }
}

/// The handler for a tool name.
pub fn route_tool(name: &str) -> (r: ToolRoute)
    ensures
        r == route_spec(name@),
{
    if str_eq(name, "health_check") {
        ToolRoute::HealthCheck
    } else if str_eq(name, "locate_symbol") {
        ToolRoute::LocateSymbol
    } else if str_eq(name, "search_code") {
        ToolRoute::SearchCode
    } else if str_eq(name, "get_symbol_hierarchy") {
        ToolRoute::GetSymbolHierarchy
    } else if str_eq(name, "find_related_symbols") {
        ToolRoute::FindRelatedSymbols
    } else if str_eq(name, "get_code_context") {
        ToolRoute::GetCodeContext
    } else if str_eq(name, "diff_context") {
        ToolRoute::DiffContext
    } else if str_eq(name, "find_references") {
        ToolRoute::FindReferences
    } else if str_eq(name, "explain_ranking") {
        ToolRoute::ExplainRanking
    } else if str_eq(name, "list_refs") {
        ToolRoute::ListRefs
    } else if str_eq(name, "switch_ref") {
        ToolRoute::SwitchRef
    } else if str_eq(name, "get_file_outline") {
        ToolRoute::GetFileOutline
    } else if str_eq(name, "index_status") {
        ToolRoute::IndexStatus
    } else if str_eq(name, "index_repo") || str_eq(name, "sync_repo") {
        ToolRoute::IndexOperation
    } else {
        ToolRoute::Unknown
    }
}

/// The tools the server serves, each with the handler that serves it.
pub open spec fn served_tools() -> Seq<(Seq<char>, ToolRoute)> {
    seq![
        ("health_check"@, ToolRoute::HealthCheck),
        ("locate_symbol"@, ToolRoute::LocateSymbol),
        ("search_code"@, ToolRoute::SearchCode),
        ("get_symbol_hierarchy"@, ToolRoute::GetSymbolHierarchy),
        ("find_related_symbols"@, ToolRoute::FindRelatedSymbols),
        ("get_code_context"@, ToolRoute::GetCodeContext),
        ("diff_context"@, ToolRoute::DiffContext),
        ("find_references"@, ToolRoute::FindReferences),
        ("explain_ranking"@, ToolRoute::ExplainRanking),
        ("list_refs"@, ToolRoute::ListRefs),
        ("switch_ref"@, ToolRoute::SwitchRef),
        ("get_file_outline"@, ToolRoute::GetFileOutline),
        ("index_status"@, ToolRoute::IndexStatus),
        ("index_repo"@, ToolRoute::IndexOperation),
        ("sync_repo"@, ToolRoute::IndexOperation),
    ]
}

/// Routing: a served tool's name goes to its own handler; any other name
/// goes to no handler (the client gets "Unknown tool").
pub proof fn lemma_route_tool_serves_each_tool(name: Seq<char>)
    ensures
        forall|i: int|
            0 <= i < served_tools().len() && #[trigger] served_tools()[i].0 == name ==> route_spec(name)
                == served_tools()[i].1,
        (route_spec(name) == ToolRoute::Unknown) <==> (forall|i: int|
            0 <= i < served_tools().len() ==> #[trigger] served_tools()[i].0 != name),
{
    reveal_strlit("health_check");
    reveal_strlit("locate_symbol");
    reveal_strlit("search_code");
    reveal_strlit("get_symbol_hierarchy");
    reveal_strlit("find_related_symbols");
    reveal_strlit("get_code_context");
    reveal_strlit("diff_context");
    reveal_strlit("find_references");
    reveal_strlit("explain_ranking");
    reveal_strlit("list_refs");
    reveal_strlit("switch_ref");
    reveal_strlit("get_file_outline");
    reveal_strlit("index_status");
    reveal_strlit("index_repo");
    reveal_strlit("sync_repo");
    let t = served_tools();
    assert(t.len() == 15);
    assert(t[0] == ("health_check"@, ToolRoute::HealthCheck));
    assert(t[0].0 == "health_check"@);
    assert(t[1] == ("locate_symbol"@, ToolRoute::LocateSymbol));
    assert(t[1].0 == "locate_symbol"@);
    assert(t[2] == ("search_code"@, ToolRoute::SearchCode));
    assert(t[2].0 == "search_code"@);
    assert(t[3] == ("get_symbol_hierarchy"@, ToolRoute::GetSymbolHierarchy));
    assert(t[3].0 == "get_symbol_hierarchy"@);
    assert(t[4] == ("find_related_symbols"@, ToolRoute::FindRelatedSymbols));
    assert(t[4].0 == "find_related_symbols"@);
    assert(t[5] == ("get_code_context"@, ToolRoute::GetCodeContext));
    assert(t[5].0 == "get_code_context"@);
    assert(t[6] == ("diff_context"@, ToolRoute::DiffContext));
    assert(t[6].0 == "diff_context"@);
    assert(t[7] == ("find_references"@, ToolRoute::FindReferences));
    assert(t[7].0 == "find_references"@);
    assert(t[8] == ("explain_ranking"@, ToolRoute::ExplainRanking));
    assert(t[8].0 == "explain_ranking"@);
    assert(t[9] == ("list_refs"@, ToolRoute::ListRefs));
    assert(t[9].0 == "list_refs"@);
    assert(t[10] == ("switch_ref"@, ToolRoute::SwitchRef));
    assert(t[10].0 == "switch_ref"@);
    assert(t[11] == ("get_file_outline"@, ToolRoute::GetFileOutline));
    assert(t[11].0 == "get_file_outline"@);
    assert(t[12] == ("index_status"@, ToolRoute::IndexStatus));
    assert(t[12].0 == "index_status"@);
    assert(t[13] == ("index_repo"@, ToolRoute::IndexOperation));
    assert(t[13].0 == "index_repo"@);
    assert(t[14] == ("sync_repo"@, ToolRoute::IndexOperation));
    assert(t[14].0 == "sync_repo"@);
    assert forall|i: int| 0 <= i < t.len() && #[trigger] t[i].0 == name implies route_spec(name) == t[i].1 by {
        if i == 0 {
            assert(name == "health_check"@);

        } else if i == 1 {
            assert(name == "locate_symbol"@);
            assert("locate_symbol"@.len() != "health_check"@.len());
        } else if i == 2 {
            assert(name == "search_code"@);
            assert("search_code"@.len() != "health_check"@.len());
            assert("search_code"@.len() != "locate_symbol"@.len());
        } else if i == 3 {
            assert(name == "get_symbol_hierarchy"@);
            assert("get_symbol_hierarchy"@.len() != "health_check"@.len());
            assert("get_symbol_hierarchy"@.len() != "locate_symbol"@.len());
            assert("get_symbol_hierarchy"@.len() != "search_code"@.len());
        } else if i == 4 {
            assert(name == "find_related_symbols"@);
            assert("find_related_symbols"@.len() != "health_check"@.len());
            assert("find_related_symbols"@.len() != "locate_symbol"@.len());
            assert("find_related_symbols"@.len() != "search_code"@.len());
            assert("find_related_symbols"@[0] != "get_symbol_hierarchy"@[0]);
        } else if i == 5 {
            assert(name == "get_code_context"@);
            assert("get_code_context"@.len() != "health_check"@.len());
            assert("get_code_context"@.len() != "locate_symbol"@.len());
            assert("get_code_context"@.len() != "search_code"@.len());
            assert("get_code_context"@.len() != "get_symbol_hierarchy"@.len());
            assert("get_code_context"@.len() != "find_related_symbols"@.len());
        } else if i == 6 {
            assert(name == "diff_context"@);
            assert("diff_context"@[0] != "health_check"@[0]);
            assert("diff_context"@.len() != "locate_symbol"@.len());
            assert("diff_context"@.len() != "search_code"@.len());
            assert("diff_context"@.len() != "get_symbol_hierarchy"@.len());
            assert("diff_context"@.len() != "find_related_symbols"@.len());
            assert("diff_context"@.len() != "get_code_context"@.len());
        } else if i == 7 {
            assert(name == "find_references"@);
            assert("find_references"@.len() != "health_check"@.len());
            assert("find_references"@.len() != "locate_symbol"@.len());
            assert("find_references"@.len() != "search_code"@.len());
            assert("find_references"@.len() != "get_symbol_hierarchy"@.len());
            assert("find_references"@.len() != "find_related_symbols"@.len());
            assert("find_references"@.len() != "get_code_context"@.len());
            assert("find_references"@.len() != "diff_context"@.len());
        } else if i == 8 {
            assert(name == "explain_ranking"@);
            assert("explain_ranking"@.len() != "health_check"@.len());
            assert("explain_ranking"@.len() != "locate_symbol"@.len());
            assert("explain_ranking"@.len() != "search_code"@.len());
            assert("explain_ranking"@.len() != "get_symbol_hierarchy"@.len());
            assert("explain_ranking"@.len() != "find_related_symbols"@.len());
            assert("explain_ranking"@.len() != "get_code_context"@.len());
            assert("explain_ranking"@.len() != "diff_context"@.len());
            assert("explain_ranking"@[0] != "find_references"@[0]);
        } else if i == 9 {
            assert(name == "list_refs"@);
            assert("list_refs"@.len() != "health_check"@.len());
            assert("list_refs"@.len() != "locate_symbol"@.len());
            assert("list_refs"@.len() != "search_code"@.len());
            assert("list_refs"@.len() != "get_symbol_hierarchy"@.len());
            assert("list_refs"@.len() != "find_related_symbols"@.len());
            assert("list_refs"@.len() != "get_code_context"@.len());
            assert("list_refs"@.len() != "diff_context"@.len());
            assert("list_refs"@.len() != "find_references"@.len());
            assert("list_refs"@.len() != "explain_ranking"@.len());
        } else if i == 10 {
            assert(name == "switch_ref"@);
            assert("switch_ref"@.len() != "health_check"@.len());
            assert("switch_ref"@.len() != "locate_symbol"@.len());
            assert("switch_ref"@.len() != "search_code"@.len());
            assert("switch_ref"@.len() != "get_symbol_hierarchy"@.len());
            assert("switch_ref"@.len() != "find_related_symbols"@.len());
            assert("switch_ref"@.len() != "get_code_context"@.len());
            assert("switch_ref"@.len() != "diff_context"@.len());
            assert("switch_ref"@.len() != "find_references"@.len());
            assert("switch_ref"@.len() != "explain_ranking"@.len());
            assert("switch_ref"@.len() != "list_refs"@.len());
        } else if i == 11 {
            assert(name == "get_file_outline"@);
            assert("get_file_outline"@.len() != "health_check"@.len());
            assert("get_file_outline"@.len() != "locate_symbol"@.len());
            assert("get_file_outline"@.len() != "search_code"@.len());
            assert("get_file_outline"@.len() != "get_symbol_hierarchy"@.len());
            assert("get_file_outline"@.len() != "find_related_symbols"@.len());
            assert("get_file_outline"@[4] != "get_code_context"@[4]);
            assert("get_file_outline"@.len() != "diff_context"@.len());
            assert("get_file_outline"@.len() != "find_references"@.len());
            assert("get_file_outline"@.len() != "explain_ranking"@.len());
            assert("get_file_outline"@.len() != "list_refs"@.len());
            assert("get_file_outline"@.len() != "switch_ref"@.len());
        } else if i == 12 {
            assert(name == "index_status"@);
            assert("index_status"@[0] != "health_check"@[0]);
            assert("index_status"@.len() != "locate_symbol"@.len());
            assert("index_status"@.len() != "search_code"@.len());
            assert("index_status"@.len() != "get_symbol_hierarchy"@.len());
            assert("index_status"@.len() != "find_related_symbols"@.len());
            assert("index_status"@.len() != "get_code_context"@.len());
            assert("index_status"@[0] != "diff_context"@[0]);
            assert("index_status"@.len() != "find_references"@.len());
            assert("index_status"@.len() != "explain_ranking"@.len());
            assert("index_status"@.len() != "list_refs"@.len());
            assert("index_status"@.len() != "switch_ref"@.len());
            assert("index_status"@.len() != "get_file_outline"@.len());
        } else if i == 13 {
            assert(name == "index_repo"@);
            assert("index_repo"@.len() != "health_check"@.len());
            assert("index_repo"@.len() != "locate_symbol"@.len());
            assert("index_repo"@.len() != "search_code"@.len());
            assert("index_repo"@.len() != "get_symbol_hierarchy"@.len());
            assert("index_repo"@.len() != "find_related_symbols"@.len());
            assert("index_repo"@.len() != "get_code_context"@.len());
            assert("index_repo"@.len() != "diff_context"@.len());
            assert("index_repo"@.len() != "find_references"@.len());
            assert("index_repo"@.len() != "explain_ranking"@.len());
            assert("index_repo"@.len() != "list_refs"@.len());
            assert("index_repo"@[0] != "switch_ref"@[0]);
            assert("index_repo"@.len() != "get_file_outline"@.len());
            assert("index_repo"@.len() != "index_status"@.len());
        } else if i == 14 {
            assert(name == "sync_repo"@);
            assert("sync_repo"@.len() != "health_check"@.len());
            assert("sync_repo"@.len() != "locate_symbol"@.len());
            assert("sync_repo"@.len() != "search_code"@.len());
            assert("sync_repo"@.len() != "get_symbol_hierarchy"@.len());
            assert("sync_repo"@.len() != "find_related_symbols"@.len());
            assert("sync_repo"@.len() != "get_code_context"@.len());
            assert("sync_repo"@.len() != "diff_context"@.len());
            assert("sync_repo"@.len() != "find_references"@.len());
            assert("sync_repo"@.len() != "explain_ranking"@.len());
            assert("sync_repo"@[0] != "list_refs"@[0]);
            assert("sync_repo"@.len() != "switch_ref"@.len());
            assert("sync_repo"@.len() != "get_file_outline"@.len());
            assert("sync_repo"@.len() != "index_status"@.len());
            assert("sync_repo"@.len() != "index_repo"@.len());
        }
    }
    if route_spec(name) == ToolRoute::Unknown {
        assert forall|i: int| 0 <= i < t.len() implies #[trigger] t[i].0 != name by {
            if t[i].0 == name {
                assert(route_spec(name) == t[i].1);
            }
        }
    }
}

/// JSON-RPC code of an unknown tool or method.
pub const METHOD_NOT_FOUND: i32 = -32601;

/// The message of the JSON-RPC error an unknown tool gets.
pub fn unknown_tool_message(name: &str) -> (r: String)
    ensures
        r@ == "Unknown tool: "@ + name@,
{
    let mut m = text_of("Unknown tool: ");
    push_text(&mut m, name);
    m
}

// ---------------------------------------------------------------------------
// De-duplication
// ---------------------------------------------------------------------------

/// No earlier key equals key `i`.
pub open spec fn fresh_at(keys: Seq<Seq<char>>, i: int) -> bool {
    forall|j: int| 0 <= j < i ==> keys[j] != keys[i]
}

/// Positions, in order, of the first occurrence of each key among the first
/// `n` keys.
pub open spec fn first_positions(keys: Seq<Seq<char>>, n: int) -> Seq<int>
    decreases n,
{
    if n <= 0 {
        Seq::empty()
    } else if fresh_at(keys, n - 1) {
        first_positions(keys, n - 1).push(n - 1)
    } else {
        first_positions(keys, n - 1)
    }
}

pub proof fn lemma_first_positions(keys: Seq<Seq<char>>, n: int)
    requires
        0 <= n <= keys.len(),
    ensures
        forall|t: int|
            0 <= t < first_positions(keys, n).len() ==> 0 <= #[trigger] first_positions(keys, n)[t]
                < n && fresh_at(keys, first_positions(keys, n)[t]),
        forall|s: int, t: int|
            0 <= s < t < first_positions(keys, n).len() ==> #[trigger] first_positions(keys, n)[s]
                < #[trigger] first_positions(keys, n)[t],
        forall|j: int|
            #![trigger keys[j]]
            0 <= j < n ==> exists|t: int|
                0 <= t < first_positions(keys, n).len() && #[trigger] keys[first_positions(
                    keys,
                    n,
                )[t]] == keys[j],
    decreases n,
{
    if n > 0 {
        lemma_first_positions(keys, n - 1);
        let prev = first_positions(keys, n - 1);
        let f = first_positions(keys, n);
        if fresh_at(keys, n - 1) {
            assert(f == prev.push(n - 1));
            assert forall|j: int| #![trigger keys[j]] 0 <= j < n implies exists|t: int|
                0 <= t < f.len() && #[trigger] keys[f[t]] == keys[j] by {
                if j == n - 1 {
                    assert(keys[f[prev.len() as int]] == keys[j]);
                } else {
                    let t = choose|t: int| 0 <= t < prev.len() && #[trigger] keys[prev[t]] == keys[j];
                    assert(f[t] == prev[t]);
                    assert(keys[f[t]] == keys[j]);
                }
            }
        } else {
            assert(f == prev);
            assert forall|j: int| #![trigger keys[j]] 0 <= j < n implies exists|t: int|
                0 <= t < f.len() && #[trigger] keys[f[t]] == keys[j] by {
                if j == n - 1 {
                    let i = choose|i: int| #![trigger keys[i]] 0 <= i < n - 1 && keys[i] == keys[n - 1];
                    let t = choose|t: int| 0 <= t < prev.len() && #[trigger] keys[prev[t]] == keys[i];
                    assert(keys[f[t]] == keys[j]);
                } else {
                    let t = choose|t: int| 0 <= t < prev.len() && #[trigger] keys[prev[t]] == keys[j];
                    assert(keys[f[t]] == keys[j]);
                }
            }
        }
    }
}

/// De-duplication keeps one item per key: no two kept items share a key.
pub proof fn lemma_dedup_keys_distinct(keys: Seq<Seq<char>>)
    ensures
        forall|s: int, t: int|
            0 <= s < t < first_positions(keys, keys.len() as int).len() ==> keys[first_positions(
                keys,
                keys.len() as int,
            )[s]] != keys[first_positions(keys, keys.len() as int)[t]],
{
    lemma_first_positions(keys, keys.len() as int);
    let f = first_positions(keys, keys.len() as int);
    assert forall|s: int, t: int| 0 <= s < t < f.len() implies keys[f[s]] != keys[f[t]] by {
        assert(f[s] < f[t]);
        assert(fresh_at(keys, f[t]));
    }
}

/// Some kept item has the key of item `j` and comes no later than it.
pub open spec fn kept_no_later(keys: Seq<Seq<char>>, f: Seq<int>, j: int) -> bool {
    exists|t: int| 0 <= t < f.len() && #[trigger] keys[f[t]] == keys[j] && f[t] <= j
}

/// De-duplication loses no key, keeps the first item of each, and keeps
/// items in their original order.
pub proof fn lemma_dedup_keeps_first_of_each(keys: Seq<Seq<char>>)
    ensures
        forall|j: int|
            0 <= j < keys.len() ==> #[trigger] kept_no_later(
                keys,
                first_positions(keys, keys.len() as int),
                j,
            ),
        forall|s: int, t: int|
            0 <= s < t < first_positions(keys, keys.len() as int).len() ==> #[trigger] first_positions(
                keys,
                keys.len() as int,
            )[s] < #[trigger] first_positions(keys, keys.len() as int)[t],
{
    lemma_first_positions(keys, keys.len() as int);
    let f = first_positions(keys, keys.len() as int);
    assert forall|j: int| 0 <= j < keys.len() implies #[trigger] kept_no_later(keys, f, j) by {
        assert(keys[j] == keys[j]);
        let t = choose|t: int| 0 <= t < f.len() && #[trigger] keys[f[t]] == keys[j];
        assert(fresh_at(keys, f[t]));
        if f[t] > j {
            assert(keys[j] != keys[f[t]]);
        }
        assert(0 <= t < f.len() && keys[f[t]] == keys[j] && f[t] <= j);
    }
}

fn contains_key(seen: &Vec<Vec<char>>, k: &Vec<char>) -> (r: bool)
    ensures
        r == views(seen@).contains(k@),
{
    let mut i: usize = 0;
    while i < seen.len()
        invariant
            i <= seen.len(),
            forall|j: int| 0 <= j < i ==> seen@[j]@ != k@,
        decreases seen.len() - i,
    {
        if eq_v(&seen[i], k) {
            assert(views(seen@)[i as int] == k@);
            return true;
        }
        i = i + 1;
    }
    assert forall|j: int| 0 <= j < views(seen@).len() implies views(seen@)[j] != k@ by {
        assert(views(seen@)[j] == seen@[j]@);
    }
    false
}

pub open spec fn as_ints(v: Seq<usize>) -> Seq<int> {
    v.map_values(|u: usize| u as int)
}

/// Positions of the first occurrence of each key, in order.
pub fn first_occurrences(keys: &Vec<Vec<char>>) -> (r: Vec<usize>)
    ensures
        as_ints(r@) == first_positions(views(keys@), keys.len() as int),
{
    let ghost ks = views(keys@);
    let mut kept: Vec<usize> = Vec::new();
    let mut seen: Vec<Vec<char>> = Vec::new();
    let mut idx: usize = 0;
    while idx < keys.len()
        invariant
            ks == views(keys@),
            idx <= keys.len(),
            as_ints(kept@) == first_positions(ks, idx as int),
            seen.len() == kept.len(),
            forall|t: int| 0 <= t < seen.len() ==> #[trigger] seen@[t]@ == ks[kept@[t] as int],
        decreases keys.len() - idx,
    {
        proof {
            lemma_first_positions(ks, idx as int);
        }
        assert(ks[idx as int] == keys@[idx as int]@);
        let present = contains_key(&seen, &keys[idx]);
        let ghost f = first_positions(ks, idx as int);
        if present {
            proof {
                let t = choose|t: int| 0 <= t < views(seen@).len() && views(seen@)[t] == ks[idx as int];
                assert(views(seen@)[t] == seen@[t]@);
                assert(as_ints(kept@)[t] == kept@[t] as int);
                assert(f[t] == kept@[t] as int);
                assert(0 <= f[t] < idx);
                assert(!fresh_at(ks, idx as int));
            }
        } else {
            proof {
                assert forall|j: int| 0 <= j < idx implies ks[j] != ks[idx as int] by {
                    let t = choose|t: int| 0 <= t < f.len() && #[trigger] ks[f[t]] == ks[j];
                    assert(as_ints(kept@)[t] == kept@[t] as int);
                    assert(seen@[t]@ == ks[f[t]]);
                    assert(views(seen@)[t] == seen@[t]@);
                    if ks[j] == ks[idx as int] {
                        assert(views(seen@).contains(ks[idx as int]));
                    }
                }
                assert(fresh_at(ks, idx as int));
            }
            kept.push(idx);
            seen.push(keys[idx].clone());
            assert(as_ints(kept@) =~= f.push(idx as int));
        }
        idx = idx + 1;
    }
    kept
}

/// The items at the given increasing positions, moved out of `items`.
fn select_positions<T>(items: Vec<T>, pos: &Vec<usize>) -> (r: Vec<T>)
    requires
        forall|t: int| 0 <= t < pos.len() ==> pos@[t] < items.len(),
        forall|s: int, t: int| 0 <= s < t < pos.len() ==> pos@[s] < pos@[t],
    ensures
        r.len() == pos.len(),
        forall|t: int| 0 <= t < pos.len() ==> r@[t] == items@[pos@[t] as int],
{
    let ghost orig = items@;
    let n = items.len();
    let mut rest = items;
    let mut out: Vec<T> = Vec::new();
    let mut idx: usize = 0;
    let mut p: usize = 0;
    while rest.len() > 0
        invariant
            rest@ == orig.skip(idx as int),
            idx <= orig.len(),
            idx + rest.len() == orig.len(),
            orig.len() == n,
            p <= pos.len(),
            out.len() == p,
            forall|t: int| 0 <= t < p ==> out@[t] == orig[pos@[t] as int],
            forall|t: int| 0 <= t < pos.len() ==> pos@[t] < orig.len(),
            forall|s: int, t: int| 0 <= s < t < pos.len() ==> pos@[s] < pos@[t],
            forall|t: int| p <= t < pos.len() ==> pos@[t] >= idx,
        decreases rest.len(),
    {
        let item = rest.remove(0);
        assert(item == orig[idx as int]);
        assert(rest@ =~= orig.skip(idx + 1));
        if p < pos.len() && pos[p] == idx {
            out.push(item);
            p = p + 1;
        }
        idx = idx + 1;
    }
    assert(idx == orig.len());
    if p < pos.len() {
        assert(pos@[p as int] >= idx);
    }
    out
}

/// A search result as de-duplication reads it.
#[derive(Debug)]
pub struct SearchHit {
    pub symbol_stable_id: Option<String>,
    pub result_type: String,
    pub path: String,
    pub line_start: u32,
    pub line_end: u32,
    pub name: Option<String>,
}

/// The identity of a search result: its stable symbol id when it has a
/// non-empty one, else its type, path, line span and name.
pub open spec fn search_key(h: SearchHit) -> Seq<char> {
    match h.symbol_stable_id {
        Some(id) if id@.len() > 0 => "stable:"@ + id@,
        _ => h.result_type@ + ":"@ + h.path@ + ":"@ + decimal(h.line_start as nat) + ":"@ + decimal(
            h.line_end as nat,
        ) + ":"@ + match h.name {
            Some(n) => n@,
            None => Seq::empty(),
        },
    }
}

/// The text of a result's name, empty when it has none.
pub open spec fn hit_name_text(h: SearchHit) -> Seq<char> {
    match h.name {
        Some(n) => n@,
        None => Seq::empty(),
    }
}

/// A result that has no non-empty stable symbol id.
pub open spec fn without_stable_id(h: SearchHit) -> bool {
    !(h.symbol_stable_id matches Some(id) && id@.len() > 0)
}

/// Results without a stable id are duplicates only when they agree on
/// type, path, line span and name text (for types and paths that hold no
/// `:`): results in different files, or at different lines, are never
/// merged.
pub proof fn lemma_search_key_identifies_result(a: SearchHit, b: SearchHit)
    requires
        without_stable_id(a),
        without_stable_id(b),
        !a.result_type@.contains(':'),
        !b.result_type@.contains(':'),
        !a.path@.contains(':'),
        !b.path@.contains(':'),
        search_key(a) == search_key(b),
    ensures
        a.result_type@ == b.result_type@,
        a.path@ == b.path@,
        a.line_start == b.line_start,
        a.line_end == b.line_end,
        hit_name_text(a) == hit_name_text(b),
{
    reveal_strlit(":");
    let c = seq![':'];
    assert(":"@ =~= c);
    let sa = decimal(a.line_start as nat);
    let ea = decimal(a.line_end as nat);
    let sb = decimal(b.line_start as nat);
    let eb = decimal(b.line_end as nat);
    let na = hit_name_text(a);
    let nb = hit_name_text(b);
    lemma_five_parts(a.result_type@, a.path@, sa, ea, na);
    lemma_five_parts(b.result_type@, b.path@, sb, eb, nb);
    let ta = ea + c + na;
    let tb = eb + c + nb;
    let ma = sa + c + ta;
    let mb = sb + c + tb;
    let pa = a.path@ + c + ma;
    let pb = b.path@ + c + mb;
    lemma_split_at_char(a.result_type@, pa, b.result_type@, pb, ':');
    lemma_split_at_char(a.path@, ma, b.path@, mb, ':');
    lemma_decimal_no_colon(a.line_start as nat);
    lemma_decimal_no_colon(b.line_start as nat);
    lemma_decimal_no_colon(a.line_end as nat);
    lemma_decimal_no_colon(b.line_end as nat);
    lemma_split_at_char(sa, ta, sb, tb, ':');
    lemma_split_at_char(ea, na, eb, nb, ':');
    lemma_decimal_injective(a.line_start as nat, b.line_start as nat);
    lemma_decimal_injective(a.line_end as nat, b.line_end as nat);
}

proof fn lemma_decimal_no_colon(n: nat)
    ensures
        !decimal(n).contains(':'),
{
    lemma_decimal_digits(n);
    if decimal(n).contains(':') {
        let i = choose|i: int| 0 <= i < decimal(n).len() && decimal(n)[i] == ':';
        assert('0' <= decimal(n)[i] <= '9');
    }
}

/// The fallback key's five parts, nested to the right.
proof fn lemma_five_parts(x1: Seq<char>, x2: Seq<char>, x3: Seq<char>, x4: Seq<char>, x5: Seq<char>)
    ensures
        x1 + ":"@ + x2 + ":"@ + x3 + ":"@ + x4 + ":"@ + x5 == x1 + seq![':'] + (x2 + seq![':'] + (x3
            + seq![':'] + (x4 + seq![':'] + x5))),
{
    reveal_strlit(":");
    assert(":"@ =~= seq![':']);
    assert(x1 + ":"@ + x2 + ":"@ + x3 + ":"@ + x4 + ":"@ + x5 =~= x1 + seq![':'] + (x2 + seq![':'] + (x3
        + seq![':'] + (x4 + seq![':'] + x5))));
}

pub open spec fn search_keys(v: Seq<SearchHit>) -> Seq<Seq<char>> {
    v.map_values(|h: SearchHit| search_key(h))
}

fn search_key_v(h: &SearchHit) -> (r: Vec<char>)
    ensures
        r@ == search_key(*h),
{
    if let Some(id) = &h.symbol_stable_id {
        if !id.as_str().is_empty() {
            let mut k = text_of("stable:");
            push_text(&mut k, id.as_str());
            return chars_of(k.as_str());
        }
    }
    let mut k = h.result_type.clone();
    push_text(&mut k, ":");
    push_text(&mut k, h.path.as_str());
    push_text(&mut k, ":");
    push_chars(&mut k, &decimal_v(h.line_start as u64));
    push_text(&mut k, ":");
    push_chars(&mut k, &decimal_v(h.line_end as u64));
    push_text(&mut k, ":");
    match &h.name {
        Some(n) => push_text(&mut k, n.as_str()),
        None => {},
    }
    chars_of(k.as_str())
}

/// Drop search results whose key an earlier result already has. Returns the
/// kept results, their positions in the input, and how many were dropped.
pub fn dedup_search_results(results: Vec<SearchHit>) -> (r: (Vec<SearchHit>, Vec<usize>, usize))
    ensures
        as_ints(r.1@) == first_positions(search_keys(results@), results.len() as int),
        r.0.len() == r.1.len(),
        forall|t: int| 0 <= t < r.1.len() ==> r.0@[t] == results@[r.1@[t] as int],
        r.2 == results.len() - r.1.len(),
{
    let mut keys: Vec<Vec<char>> = Vec::new();
    let mut i: usize = 0;
    while i < results.len()
        invariant
            i <= results.len(),
            views(keys@) == search_keys(results@).take(i as int),
        decreases results.len() - i,
    {
        let k = search_key_v(&results[i]);
        let ghost before = views(keys@);
        keys.push(k);
        assert(views(keys@) =~= before.push(k@));
        assert(search_keys(results@)[i as int] == search_key(results@[i as int]));
        assert(views(keys@) =~= search_keys(results@).take(i + 1));
        i = i + 1;
    }
    assert(views(keys@) =~= search_keys(results@));
    let kept = first_occurrences(&keys);
    proof {
        lemma_first_positions(search_keys(results@), results.len() as int);
        assert forall|t: int| 0 <= t < kept.len() implies kept@[t] < results.len() by {
            assert(as_ints(kept@)[t] == kept@[t] as int);
        }
        assert forall|s: int, t: int| 0 <= s < t < kept.len() implies kept@[s] < kept@[t] by {
            assert(as_ints(kept@)[s] == kept@[s] as int);
            assert(as_ints(kept@)[t] == kept@[t] as int);
        }
        lemma_first_positions_len(search_keys(results@), results.len() as int);
    }
    let n = results.len();
    let suppressed = n - kept.len();
    let deduped = select_positions(results, &kept);
    (deduped, kept, suppressed)
}

pub proof fn lemma_first_positions_len(keys: Seq<Seq<char>>, n: int)
    requires
        0 <= n,
    ensures
        first_positions(keys, n).len() <= n,
    decreases n,
{
    if n > 0 {
        lemma_first_positions_len(keys, n - 1);
    }
}

/// A symbol lookup result as de-duplication reads it.
#[derive(Debug)]
pub struct LocateHit {
    pub symbol_stable_id: String,
    pub path: String,
    pub line_start: u32,
    pub line_end: u32,
    pub name: String,
}

/// The identity of a lookup result: its stable symbol id when non-empty,
/// else its path, line span and name.
pub open spec fn locate_key(h: LocateHit) -> Seq<char> {
    if h.symbol_stable_id@.len() == 0 {
        h.path@ + ":"@ + decimal(h.line_start as nat) + ":"@ + decimal(h.line_end as nat) + ":"@
            + h.name@
    } else {
        "stable:"@ + h.symbol_stable_id@
    }
}

pub open spec fn locate_keys(v: Seq<LocateHit>) -> Seq<Seq<char>> {
    v.map_values(|h: LocateHit| locate_key(h))
}

fn locate_key_v(h: &LocateHit) -> (r: Vec<char>)
    ensures
        r@ == locate_key(*h),
{
    let mut k: String;
    if h.symbol_stable_id.as_str().is_empty() {
        k = h.path.clone();
        push_text(&mut k, ":");
        push_chars(&mut k, &decimal_v(h.line_start as u64));
        push_text(&mut k, ":");
        push_chars(&mut k, &decimal_v(h.line_end as u64));
        push_text(&mut k, ":");
        push_text(&mut k, h.name.as_str());
    } else {
        k = text_of("stable:");
        push_text(&mut k, h.symbol_stable_id.as_str());
    }
    chars_of(k.as_str())
}

/// Drop lookup results whose key an earlier result already has. Returns the
/// kept results and how many were dropped.
pub fn dedup_locate_results(results: Vec<LocateHit>) -> (r: (Vec<LocateHit>, usize))
    ensures
        r.0.len() == first_positions(locate_keys(results@), results.len() as int).len(),
        forall|t: int|
            0 <= t < r.0.len() ==> r.0@[t] == results@[first_positions(
                locate_keys(results@),
                results.len() as int,
            )[t]],
        r.1 == results.len() - r.0.len(),
{
    let mut keys: Vec<Vec<char>> = Vec::new();
    let mut i: usize = 0;
    while i < results.len()
        invariant
            i <= results.len(),
            views(keys@) == locate_keys(results@).take(i as int),
        decreases results.len() - i,
    {
        let k = locate_key_v(&results[i]);
        let ghost before = views(keys@);
        keys.push(k);
        assert(views(keys@) =~= before.push(k@));
        assert(locate_keys(results@)[i as int] == locate_key(results@[i as int]));
        assert(views(keys@) =~= locate_keys(results@).take(i + 1));
        i = i + 1;
    }
    assert(views(keys@) =~= locate_keys(results@));
    let kept = first_occurrences(&keys);
    proof {
        lemma_first_positions(locate_keys(results@), results.len() as int);
        assert forall|t: int| 0 <= t < kept.len() implies kept@[t] < results.len() by {
            assert(as_ints(kept@)[t] == kept@[t] as int);
        }
        assert forall|s: int, t: int| 0 <= s < t < kept.len() implies kept@[s] < kept@[t] by {
            assert(as_ints(kept@)[s] == kept@[s] as int);
            assert(as_ints(kept@)[t] == kept@[t] as int);
        }
        assert forall|t: int| 0 <= t < kept.len() implies first_positions(
            locate_keys(results@),
            results.len() as int,
        )[t] == kept@[t] as int by {
            assert(as_ints(kept@)[t] == kept@[t] as int);
        }
        lemma_first_positions_len(locate_keys(results@), results.len() as int);
    }
    let n = results.len();
    let suppressed = n - kept.len();
    let deduped = select_positions(results, &kept);
    (deduped, suppressed)
}

/// Pairs of (position among the kept results, position in the original
/// results) for the kept results that have a ranking reason, so that each
/// reason can be moved to its kept result and renumbered.
pub open spec fn aligned_pairs(reason_count: usize, kept: Seq<usize>, k: int) -> Seq<(usize, usize)>
    decreases k,
{
    if k <= 0 {
        Seq::empty()
    } else if kept[k - 1] < reason_count {
        aligned_pairs(reason_count, kept, k - 1).push(((k - 1) as usize, kept[k - 1]))
    } else {
        aligned_pairs(reason_count, kept, k - 1)
    }
}

/// Align ranking reasons to de-duplicated results: for each kept result
/// whose original position has a reason, the new index and the old one.
pub fn align_ranking_reasons_to_dedup(reason_count: usize, kept_indices: &Vec<usize>) -> (r: Vec<
    (usize, usize),
>)
    ensures
        r@ == aligned_pairs(reason_count, kept_indices@, kept_indices.len() as int),
{
    let mut out: Vec<(usize, usize)> = Vec::new();
    let mut i: usize = 0;
    while i < kept_indices.len()
        invariant
            i <= kept_indices.len(),
            out@ == aligned_pairs(reason_count, kept_indices@, i as int),
        decreases kept_indices.len() - i,
    {
        let old_index = kept_indices[i];
        if old_index < reason_count {
            out.push((i, old_index));
        }
        i = i + 1;
    }
    out
}

/// The byte budget of a response: the configured one, or the default when it
/// is zero.
pub open spec fn response_budget(max_bytes: usize) -> int {
    if max_bytes == 0 {
        DEFAULT_MAX_RESPONSE_BYTES as int
    } else {
        max_bytes as int
    }
}

/// Bytes of a JSON array holding the first `k` items: brackets, the items,
/// and a comma between each two.
pub open spec fn payload_cost(sizes: Seq<usize>, k: int) -> int
    decreases k,
{
    if k <= 0 {
        2
    } else {
        payload_cost(sizes, k - 1) + (if k > 1 {
            1int
        } else {
            0int
        }) + sizes[k - 1] as int
    }
}

/// Keep the longest prefix of results, by their serialized sizes, whose
/// array fits the budget, stopping at the first result that does not fit.
/// Returns how many results are kept and whether any was cut.
pub fn enforce_payload_safety_limit(item_sizes: &Vec<usize>, max_bytes: usize) -> (r: (usize, bool))
    ensures
        r.0 <= item_sizes.len(),
        forall|k: int| 1 <= k <= r.0 ==> payload_cost(item_sizes@, k) <= response_budget(max_bytes),
        r.0 < item_sizes.len() ==> payload_cost(item_sizes@, r.0 + 1) > response_budget(max_bytes),
        r.1 == (r.0 < item_sizes.len()),
{
    let budget: usize = if max_bytes == 0 {
        DEFAULT_MAX_RESPONSE_BYTES
    } else {
        max_bytes
    };
    let mut used: u128 = 2;
    let mut kept: usize = 0;
    while kept < item_sizes.len()
        invariant
            budget as int == response_budget(max_bytes),
            kept <= item_sizes.len(),
            used as int == payload_cost(item_sizes@, kept as int),
            kept > 0 ==> used <= budget,
            forall|k: int| 1 <= k <= kept ==> payload_cost(item_sizes@, k) <= budget,
        decreases item_sizes.len() - kept,
    {
        let separator: u128 = if kept > 0 {
            1
        } else {
            0
        };
        let next = used + separator + item_sizes[kept] as u128;
        if next > budget as u128 {
            return (kept, true);
        }
        used = next;
        kept = kept + 1;
    }
    (kept, false)
}

// ---------------------------------------------------------------------------
// Index operations (`index_repo`, `sync_repo`, `index_status`)
// ---------------------------------------------------------------------------

pub open spec fn init_first_message() -> Seq<char> {
    "Project is not initialized for this workspace. Run `codecompass init` first."@
}

/// Checks before an index job is launched: the workspace is a registered
/// project, and no job is running for it.
pub open spec fn index_preflight_spec(
    project_registered: bool,
    active_job: bool,
    workspace: Seq<char>,
    project_id: Seq<char>,
) -> Option<(ProtocolErrorCode, Seq<char>, ErrorDataView)> {
    if !project_registered {
        Some(
            (
                ProtocolErrorCode::ProjectNotFound,
                init_first_message(),
                ErrorDataView::Workspace {
                    workspace,
                    remediation: "codecompass init --path <workspace>"@,
                },
            ),
        )
    } else if active_job {
        Some(
            (
                ProtocolErrorCode::IndexInProgress,
                "An indexing job is already running."@,
                ErrorDataView::Project {
                    project_id,
                    remediation: "Use index_status to poll and retry after completion."@,
                },
            ),
        )
    } else {
        None
    }
}

pub fn index_operation_preflight(
    project_registered: bool,
    active_job: bool,
    workspace: &str,
    project_id: &str,
) -> (r: Result<(), (ProtocolErrorCode, String, ErrorData)>)
    ensures
        match (r, index_preflight_spec(project_registered, active_job, workspace@, project_id@)) {
            (Ok(()), None) => true,
            (Err(e), Some(f)) => (e.0, e.1@, e.2@) == f,
            _ => false,
        },
{
    if !project_registered {
        return Err(
            (
                ProtocolErrorCode::ProjectNotFound,
                text_of(
                    "Project is not initialized for this workspace. Run `codecompass init` first.",
                ),
                ErrorData::Workspace {
                    workspace: workspace.to_owned(),
                    remediation: text_of("codecompass init --path <workspace>"),
                },
            ),
        );
    }
    if active_job {
        return Err(
            (
                ProtocolErrorCode::IndexInProgress,
                text_of("An indexing job is already running."),
                ErrorData::Project {
                    project_id: project_id.to_owned(),
                    remediation: text_of("Use index_status to poll and retry after completion."),
                },
            ),
        );
    }
    Ok(())
}

/// The mode an index job runs in.
pub fn index_mode(force: bool) -> (r: &'static str)
    ensures
        r@ == (if force {
            "full"@
        } else {
            "incremental"@
        }),
{
    if force {
        "full"
    } else {
        "incremental"
    }
}

/// The progress token the server assigns to a job.
pub fn server_progress_token(job_id: &str) -> (r: String)
    ensures
        r@ == "index-job-"@ + job_id@,
{
    let mut t = text_of("index-job-");
    push_text(&mut t, job_id);
    t
}

/// The token progress notifications carry: the client's, unless it is
/// absent or blank, else the server's.
pub fn effective_progress_token(client_token: Option<&str>, server_token: &str) -> (r: String)
    ensures
        r@ == match client_token {
            Some(t) => if trim(t@).len() > 0 {
                t@
            } else {
                server_token@
            },
            None => server_token@,
        },
{
    match client_token {
        Some(t) => {
            if trim_v(&chars_of(t)).len() > 0 {
                t.to_owned()
            } else {
                server_token.to_owned()
            }
        },
        None => server_token.to_owned(),
    }
}

/// The wait before the next progress poll: short after a change, otherwise
/// growing by a quarter second up to two seconds.
pub fn next_poll_sleep_ms(progress_changed: bool, previous_ms: u64) -> (r: u64)
    requires
        previous_ms <= u64::MAX - 250,
    ensures
        r == (if progress_changed {
            500
        } else if previous_ms + 250 < 2000 {
            previous_ms + 250
        } else {
            2000
        }),
{
    if progress_changed {
        500
    } else {
        let grown = previous_ms + 250;
        if grown < 2000 {
            grown
        } else {
            2000
        }
    }
}

/// A job's progress counters: files scanned, files indexed, symbols
/// extracted.
#[derive(Debug, Clone, Copy, PartialEq, Eq, Structural)]
pub struct JobProgress {
    pub files_scanned: i64,
    pub files_indexed: i64,
    pub symbols_extracted: i64,
}

/// A progress notification is sent when any counter moved since the last
/// one seen.
pub fn progress_changed(last: JobProgress, current: JobProgress) -> (r: bool)
    ensures
        r == (last != current),
{
    current.files_scanned != last.files_scanned || current.files_indexed != last.files_indexed
        || current.symbols_extracted != last.symbols_extracted
}

/// The title of the notification that ends an indexing job.
pub fn completion_title(success: bool) -> (r: &'static str)
    ensures
        r@ == if success {
            "Indexing complete"@
        } else {
            "Indexing failed"@
        },
{
    if success {
        "Indexing complete"
    } else {
        "Indexing failed"
    }
}

/// The summary of a failed indexer run: its exit code, `-1` when it has
/// none (ended by a signal).
pub fn indexer_failure_summary(exit_code: Option<i32>) -> (r: String)
    ensures
        r@ == "Error: Indexer exited with code "@ + signed_text(
            match exit_code {
                Some(c) => c as int,
                None => -1,
            },
        ),
{
    let mut m = text_of("Error: Indexer exited with code ");
    let code: i64 = match exit_code {
        Some(c) => c as i64,
        None => -1,
    };
    push_signed(&mut m, code);
    m
}

/// The summary when the indexer process cannot be polled.
pub fn poll_failure_summary(error_text: &str) -> (r: String)
    ensures
        r@ == "Error: Failed to poll indexer process: "@ + error_text@,
{
    let mut m = text_of("Error: Failed to poll indexer process: ");
    push_text(&mut m, error_text);
    m
}

/// The count a started index job reports as pending: `changed_files` for a
/// sync, `file_count` for an index run.
pub fn pending_count_key(tool_name: &str) -> (r: &'static str)
    ensures
        r@ == if tool_name@ == "sync_repo"@ {
            "changed_files"@
        } else {
            "file_count"@
        },
{
    if str_eq(tool_name, "sync_repo") {
        "changed_files"
    } else {
        "file_count"
    }
}

/// Decimal text of a signed integer.
pub open spec fn signed_text(i: int) -> Seq<char> {
    if i < 0 {
        "-"@ + decimal((-i) as nat)
    } else {
        decimal(i as nat)
    }
}

fn push_signed(s: &mut String, i: i64)
    ensures
        final(s)@ == old(s)@ + signed_text(i as int),
{
    if i < 0 {
        push_text(s, "-");
        let magnitude: u64 = (-(i as i128)) as u64;
        push_chars(s, &decimal_v(magnitude));
    } else {
        push_chars(s, &decimal_v(i as u64));
    }
}

/// The progress message and percentage reported for a running job, from the
/// files scanned and indexed, the symbols extracted and the completed
/// percentage; the percentage reported never exceeds 99.
pub open spec fn progress_stage_spec(scanned: i64, indexed: i64, symbols: i64, pct: u32) -> (
    Seq<char>,
    u32,
) {
    let (msg, stage) = if scanned == 0 {
        ("Scanning files: 0 discovered"@, 0u32)
    } else if indexed == 0 {
        ("Scanning files: "@ + signed_text(scanned as int) + " discovered"@, 10u32)
    } else if pct < 70 {
        (
            "Parsing files: "@ + signed_text(indexed as int) + "/"@ + signed_text(scanned as int)
                + " ("@ + decimal(pct as nat) + "%)"@,
            if pct < 10 {
                10u32
            } else {
                pct
            },
        )
    } else if pct < 95 {
        (
            "Indexing: "@ + signed_text(indexed as int) + "/"@ + signed_text(scanned as int)
                + " files, "@ + signed_text(symbols as int) + " symbols"@,
            pct,
        )
    } else {
        (
            "Finalizing index..."@,
            if pct < 95 {
                95u32
            } else {
                pct
            },
        )
    };
    (
        msg,
        if stage < 99 {
            stage
        } else {
            99u32
        },
    )
}

pub fn progress_stage(scanned: i64, indexed: i64, symbols: i64, pct: u32) -> (r: (String, u32))
    ensures
        (r.0@, r.1) == progress_stage_spec(scanned, indexed, symbols, pct),
{
    let (msg, stage) = if scanned == 0 {
        (text_of("Scanning files: 0 discovered"), 0u32)
    } else if indexed == 0 {
        let mut m = text_of("Scanning files: ");
        push_signed(&mut m, scanned);
        push_text(&mut m, " discovered");
        (m, 10u32)
    } else if pct < 70 {
        let mut m = text_of("Parsing files: ");
        push_signed(&mut m, indexed);
        push_text(&mut m, "/");
        push_signed(&mut m, scanned);
        push_text(&mut m, " (");
        push_chars(&mut m, &decimal_v(pct as u64));
        push_text(&mut m, "%)");
        (
            m,
            if pct < 10 {
                10u32
            } else {
                pct
            },
        )
    } else if pct < 95 {
        let mut m = text_of("Indexing: ");
        push_signed(&mut m, indexed);
        push_text(&mut m, "/");
        push_signed(&mut m, scanned);
        push_text(&mut m, " files, ");
        push_signed(&mut m, symbols);
        push_text(&mut m, " symbols");
        (m, pct)
    } else {
        (text_of("Finalizing index..."), pct)
    };
    (
        msg,
        if stage < 99 {
            stage
        } else {
            99u32
        },
    )
}

/// What the progress poll of a running indexer remembers: the counters last
/// reported and the current wait between polls.
#[derive(Debug, Clone, Copy)]
pub struct PollState {
    pub last: JobProgress,
    pub sleep_ms: u64,
}

/// One poll of a running indexer: from the active job's counters (`None`
/// when none could be read) and the completed percentage, the next state
/// and the progress notification to send (message and percentage), if the
/// counters moved.
pub fn poll_step(state: PollState, observed: Option<JobProgress>, pct: u32) -> (r: (PollState, Option<(String, u32)>))
    requires
        state.sleep_ms <= u64::MAX - 250,
    ensures
        ({
            let changed = observed matches Some(c) && c != state.last;
            &&& r.0.last == if changed {
                observed->0
            } else {
                state.last
            }
            &&& r.0.sleep_ms == if changed {
                500
            } else if state.sleep_ms + 250 < 2000 {
                state.sleep_ms + 250
            } else {
                2000
            }
            &&& match r.1 {
                Some((msg, stage)) => changed && (msg@, stage) == progress_stage_spec(
                    observed->0.files_scanned,
                    observed->0.files_indexed,
                    observed->0.symbols_extracted,
                    pct,
                ),
                None => !changed,
            }
        }),
{
    let (last, note) = match observed {
        Some(c) => {
            if progress_changed(state.last, c) {
                let note = progress_stage(c.files_scanned, c.files_indexed, c.symbols_extracted, pct);
                (c, Some(note))
            } else {
                (state.last, None)
            }
        },
        None => (state.last, None),
    };
    let changed = note.is_some();
    (PollState { last, sleep_ms: next_poll_sleep_ms(changed, state.sleep_ms) }, note)
}

/// The `index_status` field of a status report.
pub fn index_status_label(schema_status: SchemaStatus) -> (r: &'static str)
    ensures
        r@ == (if schema_status == SchemaStatus::Compatible {
            "ready"@
        } else {
            "not_indexed"@
        }),
{
    if schema_status == SchemaStatus::Compatible {
        "ready"
    } else {
        "not_indexed"
    }
}

/// A past index job as a status report reads it.
#[derive(Debug)]
pub struct JobSummary {
    pub ref_name: String,
    pub status: String,
    pub updated_at: String,
}

/// When `ref_name` was last published: the update time of the first
/// published job for it among `jobs` (most recent first).
pub open spec fn last_published_from(jobs: Seq<JobSummary>, ref_name: Seq<char>, i: int) -> Option<
    Seq<char>,
>
    decreases jobs.len() - i,
{
    if i < 0 || i >= jobs.len() {
        None
    } else if jobs[i].status@ == "published"@ && jobs[i].ref_name@ == ref_name {
        Some(jobs[i].updated_at@)
    } else {
        last_published_from(jobs, ref_name, i + 1)
    }
}

pub fn last_indexed_at(jobs: &Vec<JobSummary>, ref_name: &str) -> (r: Option<String>)
    ensures
        opt_text(r) == last_published_from(jobs@, ref_name@, 0),
{
    let mut i: usize = 0;
    while i < jobs.len()
        invariant
            i <= jobs.len(),
            last_published_from(jobs@, ref_name@, 0) == last_published_from(jobs@, ref_name@, i as int),
        decreases jobs.len() - i,
    {
        if str_eq(jobs[i].status.as_str(), "published") && str_eq(jobs[i].ref_name.as_str(), ref_name) {
            return Some(jobs[i].updated_at.clone());
        }
        i = i + 1;
    }
    None
}

} // verus!
