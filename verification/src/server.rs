//! Decisions of the request loop: prewarm status labels, which tools report
//! status, how an index that fails to open is classified, how workspace
//! errors are reported, the warm set, the effective ref, and where a request
//! goes.

use vstd::prelude::*;
use crate::config::{parse_unsigned, parse_unsigned_spec};
use crate::constants::REF_LIVE;
use crate::errors::{io_error_displays, state_error_message, StateError, WorkspaceError};
use crate::text::{chars_of, decimal, decimal_v, push_chars, push_text, starts_with, str_eq, trim, trim_v, views};
use crate::tool_calls::{
    as_ints, first_occurrences, first_positions, kept_no_later, lemma_dedup_keeps_first_of_each,
    lemma_dedup_keys_distinct, lemma_first_positions, opt_str,
};
use crate::types::SchemaStatus;

verus! {

/// Prewarm has not started.
pub const PREWARM_PENDING: u8 = 0;
/// Prewarm is running.
pub const PREWARM_IN_PROGRESS: u8 = 1;
/// Prewarm finished for every indexed project.
pub const PREWARM_COMPLETE: u8 = 2;
/// Prewarm failed.
pub const PREWARM_FAILED: u8 = 3;
/// Prewarm was skipped (disabled, or nothing indexed).
pub const PREWARM_SKIPPED: u8 = 4;

pub open spec fn prewarm_label_spec(status: u8) -> Seq<char> {
    if status == PREWARM_PENDING {
        "pending"@
    } else if status == PREWARM_IN_PROGRESS {
        "warming"@
    } else if status == PREWARM_COMPLETE {
        "complete"@
    } else if status == PREWARM_FAILED {
        "failed"@
    } else if status == PREWARM_SKIPPED {
        "skipped"@
    } else {
        "unknown"@
    }
}

/// The label of a prewarm status value.
pub fn prewarm_status_label(status: u8) -> (r: &'static str)
    ensures
        r@ == prewarm_label_spec(status),
{
    if status == PREWARM_PENDING {
        "pending"
    } else if status == PREWARM_IN_PROGRESS {
        "warming"
    } else if status == PREWARM_COMPLETE {
        "complete"
    } else if status == PREWARM_FAILED {
        "failed"
    } else if status == PREWARM_SKIPPED {
        "skipped"
    } else {
        "unknown"
    }
}

/// Tools that report or change index state rather than query it.
pub open spec fn status_tool_spec(name: Seq<char>) -> bool {
    name == "index_repo"@ || name == "sync_repo"@ || name == "index_status"@ || name
        == "health_check"@
}

pub fn is_status_tool(tool_name: &str) -> (r: bool)
    ensures
        r == status_tool_spec(tool_name@),
{
    str_eq(tool_name, "index_repo") || str_eq(tool_name, "sync_repo") || str_eq(
        tool_name,
        "index_status",
    ) || str_eq(tool_name, "health_check")
}

/// The kind of an I/O error is `std::io::ErrorKind::NotFound`.
pub uninterp spec fn io_error_not_found(e: std::io::Error) -> bool;

/// Calls `std::io::Error::kind` and tells whether it is
/// `std::io::ErrorKind::NotFound`, as the name `io_error_not_found` says;
/// which errors have that kind is not stated.
#[verifier::external_body]
fn io_error_is_not_found(e: &std::io::Error) -> (r: bool)
    ensures
        r == io_error_not_found(*e),
{
    e.kind() == std::io::ErrorKind::NotFound
}

pub open spec fn no_index_message() -> Seq<char> {
    "No index found. Run `codecompass index`."@
}

pub open spec fn unavailable_prefix() -> Seq<char> {
    "Index unavailable: "@
}

/// The schema status an index that fails to open is given.
pub open spec fn open_error_status(e: StateError) -> SchemaStatus {
    match e {
        StateError::SchemaMigrationRequired { .. } => SchemaStatus::ReindexRequired,
        StateError::CorruptManifest(_) => SchemaStatus::CorruptManifest,
        StateError::Tantivy(_) => SchemaStatus::ReindexRequired,
        _ => SchemaStatus::NotIndexed,
    }
}

/// The reason given with it (for every error but an I/O error, whose text
/// comes from the operating system).
pub open spec fn open_error_reason(e: StateError) -> Seq<char> {
    match e {
        StateError::SchemaMigrationRequired { current, required } => "Index schema is incompatible (current="@
            + decimal(current as nat) + ", required="@ + decimal(required as nat) + ")."@,
        StateError::CorruptManifest(d) => "Index appears corrupted: "@ + d@,
        StateError::Tantivy(d) => "Tantivy index open failed: "@ + d@
            + ". Run `codecompass index --force` to rebuild."@,
        _ => unavailable_prefix() + state_error_message(e),
    }
}

/// Classify the error of opening an index: its schema status and a reason.
/// A missing index (I/O "not found") asks for indexing; other I/O errors
/// report the error's text.
pub fn classify_index_open_error(err: &StateError) -> (r: (SchemaStatus, String))
    ensures
        r.0 == open_error_status(*err),
        !(err is Io) ==> r.1@ == open_error_reason(*err),
        err is Io ==> r.1@ == no_index_message() || starts_with(
            r.1@,
            unavailable_prefix() + "io error: "@,
        ),
        err matches StateError::Io(e) ==> r.1@ == no_index_message() || io_error_displays(
            *e,
            r.1@.skip(29),
        ),
        err matches StateError::Io(e) ==> (r.1@ == no_index_message() <==> io_error_not_found(*e)),
{
    match err {
        StateError::Io(io_err) => {
            if io_error_is_not_found(io_err) {
                return (SchemaStatus::NotIndexed, "No index found. Run `codecompass index`.".to_owned());
            }
        },
        StateError::SchemaMigrationRequired { current, required } => {
            let mut m = "Index schema is incompatible (current=".to_owned();
            push_chars(&mut m, &decimal_v(*current as u64));
            push_text(&mut m, ", required=");
            push_chars(&mut m, &decimal_v(*required as u64));
            push_text(&mut m, ").");
            return (SchemaStatus::ReindexRequired, m);
        },
        StateError::CorruptManifest(details) => {
            let mut m = "Index appears corrupted: ".to_owned();
            push_text(&mut m, details.as_str());
            return (SchemaStatus::CorruptManifest, m);
        },
        StateError::Tantivy(details) => {
            let mut m = "Tantivy index open failed: ".to_owned();
            push_text(&mut m, details.as_str());
            push_text(&mut m, ". Run `codecompass index --force` to rebuild.");
            return (SchemaStatus::ReindexRequired, m);
        },
        _ => {},
    }
    let mut m = "Index unavailable: ".to_owned();
    let shown = err.message();
    push_text(&mut m, shown.as_str());
    proof {
        reveal_strlit("Index unavailable: ");
        reveal_strlit("io error: ");
        if err is Io {
            assert(m@ == unavailable_prefix() + shown@);
            assert(shown@.take(10) == "io error: "@);
            assert forall|i: int| 0 <= i < 29 implies #[trigger] m@.take(29)[i] == (
            unavailable_prefix() + "io error: "@)[i] by {
                if i >= 19 {
                    assert(m@[i] == shown@[i - 19]);
                    assert(shown@.take(10)[i - 19] == shown@[i - 19]);
                }
            }
            assert(m@.take(29) =~= unavailable_prefix() + "io error: "@);
            assert(m@.skip(29) =~= shown@.skip(10));
            reveal_strlit("No index found. Run `codecompass index`.");
            assert(m@[0] == 'I');
            assert(m@ != no_index_message());
        }
    }
    (SchemaStatus::NotIndexed, m)
}

/// The schema status of an index that fails to open.
pub fn classify_index_open_error_public(err: &StateError) -> (r: SchemaStatus)
    ensures
        r == open_error_status(*err),
{
    classify_index_open_error(err).0
}

/// The error code and message a workspace resolution failure is reported
/// with.
pub open spec fn workspace_error_report(e: WorkspaceError) -> (Seq<char>, Seq<char>) {
    match e {
        WorkspaceError::NotRegistered { path } => (
            "workspace_not_registered"@,
            "Workspace not registered: "@ + path@
                + ". Pass a known workspace or enable --auto-workspace."@,
        ),
        WorkspaceError::NotAllowed { path, reason } => (
            "workspace_not_allowed"@,
            "Workspace not allowed: "@ + path@ + " ("@ + reason@ + ")"@,
        ),
        WorkspaceError::AutoDiscoveryDisabled => (
            "workspace_not_registered"@,
            "Auto-workspace is disabled. Enable with --auto-workspace."@,
        ),
        WorkspaceError::LimitExceeded { max } => (
            "workspace_limit_exceeded"@,
            "Maximum auto-discovered workspaces ("@ + decimal(max as nat) + ") exceeded."@,
        ),
        WorkspaceError::AllowedRootRequired => (
            "invalid_input"@,
            "--allowed-root is required when --auto-workspace is enabled."@,
        ),
    }
}

pub fn workspace_error_code_and_message(err: &WorkspaceError) -> (r: (&'static str, String))
    ensures
        (r.0@, r.1@) == workspace_error_report(*err),
{
    match err {
        WorkspaceError::NotRegistered { path } => {
            let mut m = "Workspace not registered: ".to_owned();
            push_text(&mut m, path.as_str());
            push_text(&mut m, ". Pass a known workspace or enable --auto-workspace.");
            ("workspace_not_registered", m)
        },
        WorkspaceError::NotAllowed { path, reason } => {
            let mut m = "Workspace not allowed: ".to_owned();
            push_text(&mut m, path.as_str());
            push_text(&mut m, " (");
            push_text(&mut m, reason.as_str());
            push_text(&mut m, ")");
            ("workspace_not_allowed", m)
        },
        WorkspaceError::AutoDiscoveryDisabled => (
            "workspace_not_registered",
            "Auto-workspace is disabled. Enable with --auto-workspace.".to_owned(),
        ),
        WorkspaceError::LimitExceeded { max } => {
            let mut m = "Maximum auto-discovered workspaces (".to_owned();
            push_chars(&mut m, &decimal_v(*max as u64));
            push_text(&mut m, ") exceeded.");
            ("workspace_limit_exceeded", m)
        },
        WorkspaceError::AllowedRootRequired => (
            "invalid_input",
            "--allowed-root is required when --auto-workspace is enabled.".to_owned(),
        ),
    }
}

/// The default warm-set capacity.
pub const DEFAULT_WARMSET_CAPACITY: usize = 3;

/// Members of the warm set: the default member, then the recent ones not seen
/// before, in order, at most `capacity` of them.
pub open spec fn warmset_spec(default_member: Seq<char>, recent: Seq<Seq<char>>, capacity: usize) -> Seq<
    Seq<char>,
> {
    let keys = seq![default_member] + recent;
    let kept = first_positions(keys, keys.len() as int).map_values(|p: int| keys[p]);
    if kept.len() > capacity {
        kept.take(capacity as int)
    } else {
        kept
    }
}

/// Build the warm set from the default member and recently used ones.
pub fn warmset_members(default_member: &str, recent: &Vec<String>, capacity: usize) -> (r: Vec<String>)
    ensures
        r@.map_values(|s: String| s@) == warmset_spec(default_member@, recent@.map_values(|s: String| s@), capacity),
{
    let mut keys: Vec<Vec<char>> = Vec::new();
    keys.push(chars_of(default_member));
    let ghost recent_v = recent@.map_values(|s: String| s@);
    let mut i: usize = 0;
    while i < recent.len()
        invariant
            i <= recent.len(),
            recent_v == recent@.map_values(|s: String| s@),
            views(keys@) == seq![default_member@] + recent_v.take(i as int),
        decreases recent.len() - i,
    {
        let k = chars_of(recent[i].as_str());
        let ghost before = views(keys@);
        keys.push(k);
        assert(views(keys@) =~= before.push(k@));
        assert(views(keys@) =~= seq![default_member@] + recent_v.take(i + 1));
        i = i + 1;
    }
    assert(recent_v.take(recent.len() as int) =~= recent_v);
    let ghost ks = views(keys@);
    let kept = first_occurrences(&keys);
    let ghost kept_keys = first_positions(ks, ks.len() as int).map_values(|p: int| ks[p]);
    let limit: usize = if kept.len() > capacity {
        capacity
    } else {
        kept.len()
    };
    proof {
        lemma_first_positions(ks, ks.len() as int);
        assert forall|u: int| 0 <= u < kept.len() implies kept@[u] < keys.len() by {
            assert(as_ints(kept@)[u] == kept@[u] as int);
        }
    }
    let mut out: Vec<String> = Vec::new();
    let mut t: usize = 0;
    while t < limit
        invariant
            t <= limit <= kept.len(),
            ks == views(keys@),
            as_ints(kept@) == first_positions(ks, ks.len() as int),
            kept_keys == first_positions(ks, ks.len() as int).map_values(|p: int| ks[p]),
            out@.map_values(|s: String| s@) == kept_keys.take(t as int),
            forall|u: int| 0 <= u < kept.len() ==> kept@[u] < keys.len(),
        decreases limit - t,
    {
        let p = kept[t];
        assert(as_ints(kept@)[t as int] == p as int);
        assert(ks[p as int] == keys@[p as int]@);
        let s = crate::text::string_of(&keys[p]);
        let ghost before = out@.map_values(|x: String| x@);
        out.push(s);
        assert(out@.map_values(|x: String| x@) =~= before.push(s@));
        assert(kept_keys[t as int] == ks[p as int]);
        assert(out@.map_values(|x: String| x@) =~= kept_keys.take(t + 1));
        t = t + 1;
    }
    assert(kept_keys.len() == kept.len());
    if kept.len() <= capacity {
        assert(kept_keys.take(limit as int) =~= kept_keys);
    }
    out
}

proof fn lemma_first_kept_is_first(keys: Seq<Seq<char>>)
    requires
        keys.len() > 0,
    ensures
        first_positions(keys, keys.len() as int).len() > 0,
        first_positions(keys, keys.len() as int)[0] == 0,
{
    let n = keys.len() as int;
    let f = first_positions(keys, n);
    lemma_first_positions(keys, n);
    lemma_dedup_keeps_first_of_each(keys);
    assert(kept_no_later(keys, f, 0));
    let t = choose|t: int| 0 <= t < f.len() && #[trigger] keys[f[t]] == keys[0] && f[t] <= 0;
    if t > 0 {
        assert(f[0] < f[t]);
    }
}

/// The warm set starts with the default member (when it has room for any),
/// holds no member twice, and never exceeds its capacity.
pub proof fn lemma_warmset_shape(default_member: Seq<char>, recent: Seq<Seq<char>>, capacity: usize)
    ensures
        warmset_spec(default_member, recent, capacity).len() <= capacity,
        capacity > 0 ==> warmset_spec(default_member, recent, capacity)[0] == default_member,
        forall|i: int, j: int|
            0 <= i < j < warmset_spec(default_member, recent, capacity).len() ==> warmset_spec(
                default_member,
                recent,
                capacity,
            )[i] != warmset_spec(default_member, recent, capacity)[j],
{
    let keys = seq![default_member] + recent;
    let n = keys.len() as int;
    let f = first_positions(keys, n);
    let kept = f.map_values(|p: int| keys[p]);
    let ws = warmset_spec(default_member, recent, capacity);
    assert(ws.len() <= kept.len());
    assert(forall|i: int| 0 <= i < ws.len() ==> ws[i] == kept[i]);
    if capacity > 0 {
        assert(ws[0] == default_member) by {
            lemma_first_kept_is_first(keys);
            assert(keys[0] == default_member);
        }
    }
    assert forall|i: int, j: int| 0 <= i < j < ws.len() implies ws[i] != ws[j] by {
        lemma_dedup_keys_distinct(keys);
        assert(ws[i] == kept[i] && ws[j] == kept[j]);
        assert(kept[i] == keys[f[i]] && kept[j] == keys[f[j]]);
    }
}

/// The JSON-RPC error code of a request line that is not valid JSON.
pub const JSONRPC_PARSE_ERROR: i64 = -32700;

/// The message a request line that does not parse is answered with.
pub fn parse_error_message(error_text: &str) -> (r: String)
    ensures
        r@ == "Parse error: "@ + error_text@,
{
    let mut m = "Parse error: ".to_owned();
    push_text(&mut m, error_text);
    m
}

/// Blank request lines are skipped.
pub fn skips_request_line(line: &str) -> (r: bool)
    ensures
        r == (trim(line@).len() == 0),
{
    trim_v(&chars_of(line)).len() == 0
}

/// What a client's `initialize` capabilities declare about progress: a
/// `notifications` entry, `experimental.notifications`,
/// `experimental.progress`.
#[derive(Debug, Clone, Copy)]
pub struct ProgressCapabilities {
    pub notifications: bool,
    pub experimental_notifications: bool,
    pub experimental_progress: bool,
}

/// A client that sends capabilities and declares any of the three accepts
/// progress notifications.
pub fn supports_progress_notifications(capabilities: Option<ProgressCapabilities>) -> (r: bool)
    ensures
        r == match capabilities {
            Some(c) => c.notifications || c.experimental_notifications || c.experimental_progress,
            None => false,
        },
{
    match capabilities {
        Some(c) => c.notifications || c.experimental_notifications || c.experimental_progress,
        None => false,
    }
}

/// The warm-set capacity a setting asks for: a positive integer that fits
/// `usize`, else the default.
pub open spec fn warmset_capacity_spec(raw: Option<Seq<char>>) -> usize {
    match raw {
        Some(s) => match parse_unsigned_spec(s, usize::MAX as nat) {
            Some(n) => if n > 0 {
                n as usize
            } else {
                DEFAULT_WARMSET_CAPACITY
            },
            None => DEFAULT_WARMSET_CAPACITY,
        },
        None => DEFAULT_WARMSET_CAPACITY,
    }
}

/// The warm-set capacity from the value of its environment setting, if set.
pub fn warmset_capacity(raw: Option<&str>) -> (r: usize)
    ensures
        r == warmset_capacity_spec(opt_str(raw)),
        r > 0,
{
    match raw {
        Some(s) => match parse_unsigned(s, usize::MAX as u64) {
            Some(n) => if n > 0 {
                n as usize
            } else {
                DEFAULT_WARMSET_CAPACITY
            },
            None => DEFAULT_WARMSET_CAPACITY,
        },
        None => DEFAULT_WARMSET_CAPACITY,
    }
}

/// The schema status of a project's index: the current project's is known;
/// another project's follows from opening its index (`target_open_error` is
/// the error of that attempt, `None` when it opened).
pub open spec fn project_schema_status_spec(
    current_project_id: Seq<char>,
    target_project_id: Seq<char>,
    current_schema_status: SchemaStatus,
    target_open_error: Option<StateError>,
) -> SchemaStatus {
    if target_project_id == current_project_id {
        current_schema_status
    } else {
        match target_open_error {
            Some(e) => open_error_status(e),
            None => SchemaStatus::Compatible,
        }
    }
}

pub fn resolve_project_schema_status(
    current_project_id: &str,
    target_project_id: &str,
    current_schema_status: SchemaStatus,
    target_open_error: Option<&StateError>,
) -> (r: SchemaStatus)
    ensures
        r == project_schema_status_spec(
            current_project_id@,
            target_project_id@,
            current_schema_status,
            match target_open_error {
                Some(e) => Some(*e),
                None => None,
            },
        ),
{
    if str_eq(target_project_id, current_project_id) {
        return current_schema_status;
    }
    match target_open_error {
        Some(e) => classify_index_open_error_public(e),
        None => SchemaStatus::Compatible,
    }
}

/// The search indices are healthy when there is at least one check and every
/// check passed.
pub fn all_checks_ok(checks: &Vec<bool>) -> (r: bool)
    ensures
        r == (checks@.len() > 0 && forall|i: int| 0 <= i < checks@.len() ==> checks@[i]),
{
    if checks.len() == 0 {
        return false;
    }
    let mut i: usize = 0;
    while i < checks.len()
        invariant
            i <= checks.len(),
            forall|j: int| 0 <= j < i ==> checks@[j],
        decreases checks.len() - i,
    {
        if !checks[i] {
            return false;
        }
        i = i + 1;
    }
    true
}

/// The ref a tool works on: the requested one, else the current branch,
/// else the project's default ref unless blank, else `live`.
pub open spec fn tool_ref_spec(
    requested: Option<Seq<char>>,
    head_branch: Option<Seq<char>>,
    project_default_ref: Option<Seq<char>>,
) -> Seq<char> {
    match requested {
        Some(r) => r,
        None => match head_branch {
            Some(b) => b,
            None => match project_default_ref {
                Some(d) => if trim(d).len() > 0 {
                    d
                } else {
                    REF_LIVE@
                },
                None => REF_LIVE@,
            },
        },
    }
}

/// Resolve the effective ref from the request, the detected current branch
/// (when detection succeeded) and the stored project default ref (when the
/// project is known).
pub fn resolve_tool_ref(
    requested_ref: Option<&str>,
    head_branch: Option<&str>,
    project_default_ref: Option<&str>,
) -> (r: String)
    ensures
        r@ == tool_ref_spec(opt_str(requested_ref), opt_str(head_branch), opt_str(project_default_ref)),
{
    if let Some(r) = requested_ref {
        return r.to_owned();
    }
    if let Some(b) = head_branch {
        return b.to_owned();
    }
    if let Some(d) = project_default_ref {
        if trim_v(&chars_of(d)).len() > 0 {
            return d.to_owned();
        }
    }
    REF_LIVE.to_owned()
}

/// Where a JSON-RPC request goes.
#[derive(Debug, Clone, Copy, PartialEq, Eq, Structural)]
pub enum MethodRoute {
    Initialize,
    Initialized,
    ListTools,
    CallTool,
    NotFound,
}

pub open spec fn method_route_spec(method: Seq<char>) -> MethodRoute {
    if method == "initialize"@ {
        MethodRoute::Initialize
    } else if method == "notifications/initialized"@ {
        MethodRoute::Initialized
    } else if method == "tools/list"@ {
        MethodRoute::ListTools
    } else if method == "tools/call"@ {
        MethodRoute::CallTool
    } else {
        MethodRoute::NotFound
    }
}

pub fn route_method(method: &str) -> (r: MethodRoute)
    ensures
        r == method_route_spec(method@),
{
    if str_eq(method, "initialize") {
        MethodRoute::Initialize
    } else if str_eq(method, "notifications/initialized") {
        MethodRoute::Initialized
    } else if str_eq(method, "tools/list") {
        MethodRoute::ListTools
    } else if str_eq(method, "tools/call") {
        MethodRoute::CallTool
    } else {
        MethodRoute::NotFound
    }
}

/// The message of the error an unknown method gets.
pub fn method_not_found_message(method: &str) -> (r: String)
    ensures
        r@ == "Method not found: "@ + method@,
{
    let mut m = "Method not found: ".to_owned();
    push_text(&mut m, method);
    m
}

/// What happens to a tool call in a workspace that is being indexed on
/// demand: whether to launch bootstrap indexing, and whether to answer at
/// once that results are not ready (every tool but the status tools).
pub fn on_demand_plan(on_demand_indexing: bool, should_bootstrap: bool, tool_name: &str) -> (r: (
    bool,
    bool,
))
    ensures
        r.0 == (on_demand_indexing && should_bootstrap),
        r.1 == (on_demand_indexing && !status_tool_spec(tool_name@)),
{
    if !on_demand_indexing {
        return (false, false);
    }
    (should_bootstrap, !is_status_tool(tool_name))
}

/// The progress token a request carries: none unless the client enabled
/// notifications, then its token, or an empty one that lets the server
/// assign its own.
pub fn request_progress_token(notifications_enabled: bool, client_token: Option<&str>) -> (r: Option<
    String,
>)
    ensures
        !notifications_enabled ==> r is None,
        notifications_enabled ==> r is Some && r->0@ == match client_token {
            Some(t) => t@,
            None => Seq::<char>::empty(),
        },
{
    if !notifications_enabled {
        return None;
    }
    match client_token {
        Some(t) => Some(t.to_owned()),
        None => Some(String::new()),
    }
}

/// An HTTP header as a request holds it.
#[derive(Debug, Clone, Copy)]
pub enum HeaderText<'a> {
    Absent,
    /// Present, with visible ASCII text.
    Text(&'a str),
    /// Present, with other bytes.
    Opaque,
}

/// The session scope of an HTTP request: the `mcp-session-id` header when
/// present, else `x-codecompass-session`; its trimmed text unless blank or
/// not text.
pub open spec fn session_scope_spec(mcp_session_id: HeaderText, codecompass_session: HeaderText) -> Option<
    Seq<char>,
> {
    let chosen = match mcp_session_id {
        HeaderText::Absent => codecompass_session,
        _ => mcp_session_id,
    };
    match chosen {
        HeaderText::Text(t) => if trim(t@).len() > 0 {
            Some(trim(t@))
        } else {
            None
        },
        _ => None,
    }
}

pub fn session_scope_from_headers(mcp_session_id: HeaderText, codecompass_session: HeaderText) -> (r:
    Option<String>)
    ensures
        match (r, session_scope_spec(mcp_session_id, codecompass_session)) {
            (Some(a), Some(b)) => a@ == b,
            (None, None) => true,
            _ => false,
        },
{
    let chosen = match mcp_session_id {
        HeaderText::Absent => codecompass_session,
        _ => mcp_session_id,
    };
    match chosen {
        HeaderText::Text(t) => {
            let trimmed = trim_v(&chars_of(t));
            if trimmed.len() > 0 {
                Some(crate::text::string_of(&trimmed))
            } else {
                None
            }
        },
        _ => None,
    }
}

} // verus!
