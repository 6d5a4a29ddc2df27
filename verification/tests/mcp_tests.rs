use codecompass::config::Config;
use codecompass::errors::{ProtocolErrorCode, StateError, WorkspaceError};
use codecompass::paths::path_parent_v;
use codecompass::protocol::{validation_metadata, ProtocolMetadata};
use codecompass::server::{
    classify_index_open_error, classify_index_open_error_public, is_status_tool, method_not_found_message,
    all_checks_ok, on_demand_plan, parse_error_message, skips_request_line, supports_progress_notifications,
    ProgressCapabilities, JSONRPC_PARSE_ERROR, prewarm_status_label, resolve_project_schema_status, warmset_capacity, request_progress_token, resolve_tool_ref, route_method,
    session_scope_from_headers, HeaderText,
    warmset_members, workspace_error_code_and_message, MethodRoute, PREWARM_COMPLETE, PREWARM_FAILED,
    PREWARM_IN_PROGRESS, PREWARM_PENDING, PREWARM_SKIPPED,
};
use codecompass::tool_calls::{
    align_ranking_reasons_to_dedup, dedup_locate_results, dedup_search_results,
    deterministic_locate_suggested_actions, deterministic_suggested_actions, effective_progress_token,
    enforce_payload_safety_limit, enriches_context, completion_title, indexer_failure_summary, pending_count_key,
    poll_failure_summary, poll_step, progress_changed, JobProgress, PollState, index_mode, index_operation_preflight, index_status_label,
    last_indexed_at, map_state_error, next_poll_sleep_ms, parse_compact, parse_detail_level,
    parse_max_tokens, progress_stage, query_preflight, context_preflight, resolve_ranking_explain_level, route_tool,
    server_progress_token, tool_compatibility_error, unknown_tool_message, METHOD_NOT_FOUND, ErrorData, JobSummary,
    LocateHit, MaxTokensArg, PreflightFailure, SearchHit, SuggestedAction, ToolRoute,
};
use codecompass::types::{
    AllowedRoots, DetailLevel, FreshnessStatus, IndexingStatus, RankingExplainLevel, ResultCompleteness,
    SchemaStatus, WorkspaceConfig,
};
use codecompass::workspace_router::{
    requested_workspace, resolution_error, resolve_known, resolve_registered, ResolveStep, WorkspaceRouter,
};
use codecompass::ids::project_id_for_root;
use codecompass::semantic_advice::semantic_advisor_input;
use codecompass::vcs_adapter::{default_vcs_adapter, GitVcsAdapter};

fn hit(stable: Option<&str>, kind: &str, path: &str, lines: (u32, u32), name: Option<&str>) -> SearchHit {
    SearchHit {
        symbol_stable_id: stable.map(|s| s.to_string()),
        result_type: kind.to_string(),
        path: path.to_string(),
        line_start: lines.0,
        line_end: lines.1,
        name: name.map(|s| s.to_string()),
    }
}

#[test]
fn dedup_search_results_by_stable_id() {
    let base = hit(Some("stable1"), "symbol", "src/lib.rs", (10, 20), Some("foo"));
    let second = hit(Some("stable1"), "symbol", "src/lib.rs", (10, 20), Some("foo"));
    let third = hit(None, "file", "src/other.rs", (1, 1), None);
    let (deduped, kept_indices, suppressed) = dedup_search_results(vec![base, second, third]);
    assert_eq!(suppressed, 1);
    assert_eq!(deduped.len(), 2);
    assert_eq!(kept_indices, vec![0, 2]);
}

#[test]
fn dedup_search_falls_back_to_location_key() {
    let a = hit(Some(""), "symbol", "a.rs", (1, 2), Some("x"));
    let b = hit(None, "symbol", "a.rs", (1, 2), Some("x"));
    let c = hit(None, "symbol", "a.rs", (1, 3), Some("x"));
    let (deduped, kept, suppressed) = dedup_search_results(vec![a, b, c]);
    assert_eq!(kept, vec![0, 2]);
    assert_eq!(suppressed, 1);
    assert_eq!(deduped[1].line_end, 3);
}

#[test]
fn dedup_locate_results_by_stable_id() {
    let a = LocateHit {
        symbol_stable_id: "stable".to_string(),
        path: "src/lib.rs".to_string(),
        line_start: 10,
        line_end: 20,
        name: "foo".to_string(),
    };
    let b = LocateHit {
        symbol_stable_id: "stable".to_string(),
        path: "src/other.rs".to_string(),
        line_start: 1,
        line_end: 2,
        name: "foo".to_string(),
    };
    let (deduped, suppressed) = dedup_locate_results(vec![a, b]);
    assert_eq!(suppressed, 1);
    assert_eq!(deduped.len(), 1);
    assert_eq!(deduped[0].path, "src/lib.rs");
}

#[test]
fn ranking_reasons_follow_kept_results() {
    assert_eq!(align_ranking_reasons_to_dedup(3, &vec![0, 2, 5]), vec![(0, 0), (1, 2)]);
    assert_eq!(align_ranking_reasons_to_dedup(0, &vec![0]), vec![]);
}

fn item_size(name: &str, payload_len: usize) -> usize {
    let mut map = serde_json::Map::new();
    map.insert("name".to_string(), serde_json::Value::String(name.to_string()));
    map.insert("payload".to_string(), serde_json::Value::String("x".repeat(payload_len)));
    serde_json::to_vec(&serde_json::Value::Object(map)).unwrap().len()
}

#[test]
fn safety_limit_truncates_results() {
    let results = vec![item_size("a", 80), item_size("b", 80), item_size("c", 80)];
    let (kept, truncated) = enforce_payload_safety_limit(&results, 120);
    assert!(truncated);
    assert!(kept < 3);
}

#[test]
fn safety_limit_counts_brackets_and_commas() {
    // [10,10] needs 2 + 10 + 1 + 10 = 23 bytes.
    assert_eq!(enforce_payload_safety_limit(&vec![10, 10], 23), (2, false));
    assert_eq!(enforce_payload_safety_limit(&vec![10, 10], 22), (1, true));
    assert_eq!(enforce_payload_safety_limit(&vec![10], 11), (0, true));
    assert_eq!(enforce_payload_safety_limit(&vec![], 1), (0, false));
    // Zero means the default budget of 64 KiB.
    assert_eq!(enforce_payload_safety_limit(&vec![65535], 0), (0, true));
    assert_eq!(enforce_payload_safety_limit(&vec![65534], 0), (1, false));
}

#[test]
fn deterministic_locate_actions_are_stable() {
    let actions = deterministic_locate_suggested_actions("validate_token", "main", 10);
    assert_eq!(actions.len(), 2);
    assert_eq!(actions[0].tool, "locate_symbol");
    assert_eq!(actions[0].name.as_deref(), Some("validate_token"));
    assert_eq!(actions[0].limit, Some(5));
    assert_eq!(actions[1].tool, "search_code");
    assert_eq!(actions[1].query.as_deref(), Some("validate_token"));
    assert_eq!(actions[1].limit, Some(5));
}

#[test]
fn search_followups_keep_engine_suggestions() {
    let existing = vec![SuggestedAction {
        tool: "locate_symbol".to_string(),
        name: Some("x".to_string()),
        query: None,
        ref_name: Some("main".to_string()),
        limit: Some(3),
    }];
    let kept = deterministic_suggested_actions(&existing, "q", "main", 10);
    assert_eq!(kept.len(), 1);
    assert_eq!(kept[0].tool, "locate_symbol");
    let fresh = deterministic_suggested_actions(&vec![], "auth flow", "dev", 10);
    assert_eq!(fresh.len(), 1);
    assert_eq!(fresh[0].tool, "search_code");
    assert_eq!(fresh[0].query.as_deref(), Some("auth flow"));
    assert_eq!(fresh[0].ref_name.as_deref(), Some("dev"));
    assert_eq!(fresh[0].limit, Some(6));
    assert_eq!(deterministic_suggested_actions(&vec![], "q", "r", 0)[0].limit, Some(1));
}

#[test]
fn argument_parsing_defaults() {
    assert_eq!(parse_detail_level(None), DetailLevel::Signature);
    assert_eq!(parse_detail_level(Some("location")), DetailLevel::Location);
    assert_eq!(parse_detail_level(Some("context")), DetailLevel::Context);
    assert_eq!(parse_detail_level(Some("CONTEXT")), DetailLevel::Signature);
    assert!(!parse_compact(None));
    assert!(parse_compact(Some(true)));
}

#[test]
fn ranking_level_argument_and_legacy_flag() {
    let mut config = Config::default();
    assert_eq!(resolve_ranking_explain_level(Some(" Basic "), &config), Ok(RankingExplainLevel::Basic));
    assert_eq!(
        resolve_ranking_explain_level(Some("verbose"), &config),
        Err("Parameter `ranking_explain_level` must be `off`, `basic`, or `full`.".to_string())
    );
    assert_eq!(resolve_ranking_explain_level(None, &config), Ok(RankingExplainLevel::Off));
    config.debug.ranking_reasons = true;
    assert_eq!(resolve_ranking_explain_level(None, &config), Ok(RankingExplainLevel::Full));
}

#[test]
fn query_preflight_order_of_checks() {
    let config = Config::default();
    match query_preflight("  ", "name", Some("bad"), &config, false, SchemaStatus::NotIndexed) {
        Err(PreflightFailure::InvalidInput(m)) => assert_eq!(m, "Parameter `name` is required."),
        other => panic!("unexpected {other:?}"),
    }
    match query_preflight("q", "query", Some("bad"), &config, false, SchemaStatus::NotIndexed) {
        Err(PreflightFailure::InvalidInput(m)) => assert!(m.contains("ranking_explain_level")),
        other => panic!("unexpected {other:?}"),
    }
    assert!(matches!(
        query_preflight("q", "query", None, &config, true, SchemaStatus::ReindexRequired),
        Err(PreflightFailure::Incompatible)
    ));
    assert!(matches!(
        query_preflight("q", "query", Some("full"), &config, true, SchemaStatus::Compatible),
        Ok(RankingExplainLevel::Full)
    ));
}

#[test]
fn compatibility_errors() {
    let (code, msg, data) = tool_compatibility_error(SchemaStatus::NotIndexed, None, false, "/ws");
    assert_eq!(code, ProtocolErrorCode::ProjectNotFound);
    assert!(msg.contains("codecompass init"));
    assert!(matches!(data, ErrorData::Workspace { ref workspace, .. } if workspace == "/ws"));
    let (code, msg, data) = tool_compatibility_error(SchemaStatus::CorruptManifest, Some("bad"), true, "/ws");
    assert_eq!(code, ProtocolErrorCode::IndexIncompatible);
    assert_eq!(msg, "Index is incompatible. Run `codecompass index --force`.");
    match data {
        ErrorData::Compatibility { schema_status, reason, remediation } => {
            assert_eq!(schema_status, SchemaStatus::CorruptManifest);
            assert_eq!(reason.as_deref(), Some("bad"));
            assert_eq!(remediation, "codecompass index --force");
        }
        other => panic!("unexpected {other:?}"),
    }
    let (_, msg, _) = tool_compatibility_error(SchemaStatus::NotIndexed, None, true, "/ws");
    assert_eq!(msg, "No index available. Run `codecompass index`.");
}

#[test]
fn max_tokens_validation() {
    assert_eq!(parse_max_tokens(MaxTokensArg::Absent), Ok(4000));
    assert_eq!(parse_max_tokens(MaxTokensArg::Unsigned(250)), Ok(250));
    assert_eq!(
        parse_max_tokens(MaxTokensArg::Unsigned(0)),
        Err("Parameter `max_tokens` must be greater than 0.".to_string())
    );
    assert_eq!(
        parse_max_tokens(MaxTokensArg::Other),
        Err("Parameter `max_tokens` must be a positive integer.".to_string())
    );
}

#[test]
fn tool_routing() {
    assert_eq!(route_tool("search_code"), ToolRoute::SearchCode);
    assert_eq!(route_tool("sync_repo"), ToolRoute::IndexOperation);
    assert_eq!(route_tool("index_repo"), ToolRoute::IndexOperation);
    assert_eq!(route_tool("health_check"), ToolRoute::HealthCheck);
    assert_eq!(route_tool("get_call_graph"), ToolRoute::Unknown);
    assert_eq!(unknown_tool_message("nope"), "Unknown tool: nope");
    assert_eq!(route_method("tools/call"), MethodRoute::CallTool);
    assert_eq!(route_method("ping"), MethodRoute::NotFound);
    assert_eq!(method_not_found_message("ping"), "Method not found: ping");
}

#[test]
fn state_errors_map_to_protocol_errors() {
    let (code, msg, data) = map_state_error(&StateError::sync_in_progress("p", "main", "j1"));
    assert_eq!(code, ProtocolErrorCode::SyncInProgress);
    assert_eq!(msg, "A sync job is already active for this project/ref.");
    match data {
        Some(ErrorData::Detail { details, remediation }) => {
            assert_eq!(details, "sync_in_progress: project_id=p, ref=main, job_id=j1");
            assert!(remediation.starts_with("Poll index_status"));
        }
        other => panic!("unexpected {other:?}"),
    }
    let (code, _, data) = map_state_error(&StateError::SchemaMigrationRequired { current: 2, required: 3 });
    assert_eq!(code, ProtocolErrorCode::IndexIncompatible);
    assert!(matches!(data, Some(ErrorData::SchemaVersions { current: 2, required: 3, .. })));
    let (code, _, data) = map_state_error(&StateError::result_not_found("a.rs", 7));
    assert_eq!(code, ProtocolErrorCode::ResultNotFound);
    assert!(matches!(data, Some(ErrorData::Detail { ref details, .. }) if details == "result_not_found: path=a.rs, line_start=7"));
    let (code, msg, data) = map_state_error(&StateError::sqlite("disk full"));
    assert_eq!(code, ProtocolErrorCode::InternalError);
    assert_eq!(msg, "Tool execution failed: sqlite error: disk full");
    assert!(data.is_none());
    let (code, msg, _) = map_state_error(&StateError::Io(std::io::Error::new(std::io::ErrorKind::Other, "x")));
    assert_eq!(code, ProtocolErrorCode::InternalError);
    assert!(msg.starts_with("Tool execution failed: io error: "));
}

#[test]
fn index_open_errors_are_classified() {
    let missing = StateError::Io(std::io::Error::new(std::io::ErrorKind::NotFound, "gone"));
    assert_eq!(
        classify_index_open_error(&missing),
        (SchemaStatus::NotIndexed, "No index found. Run `codecompass index`.".to_string())
    );
    let other_io = StateError::Io(std::io::Error::new(std::io::ErrorKind::PermissionDenied, "denied"));
    let (status, reason) = classify_index_open_error(&other_io);
    assert_eq!(status, SchemaStatus::NotIndexed);
    assert!(reason.starts_with("Index unavailable: io error: "));
    assert_eq!(
        classify_index_open_error(&StateError::SchemaMigrationRequired { current: 1, required: 4 }),
        (SchemaStatus::ReindexRequired, "Index schema is incompatible (current=1, required=4).".to_string())
    );
    assert_eq!(
        classify_index_open_error_public(&StateError::CorruptManifest("x".to_string())),
        SchemaStatus::CorruptManifest
    );
    assert_eq!(
        classify_index_open_error(&StateError::tantivy("lock")).1,
        "Tantivy index open failed: lock. Run `codecompass index --force` to rebuild."
    );
}

#[test]
fn workspace_errors_are_reported() {
    let (code, msg) = workspace_error_code_and_message(&WorkspaceError::NotAllowed {
        path: "/x".to_string(),
        reason: "outside".to_string(),
    });
    assert_eq!(code, "workspace_not_allowed");
    assert_eq!(msg, "Workspace not allowed: /x (outside)");
    let (code, msg) = workspace_error_code_and_message(&WorkspaceError::LimitExceeded { max: 4 });
    assert_eq!(code, "workspace_limit_exceeded");
    assert_eq!(msg, "Maximum auto-discovered workspaces (4) exceeded.");
    let (code, _) = workspace_error_code_and_message(&WorkspaceError::AllowedRootRequired);
    assert_eq!(code, "invalid_input");
}

#[test]
fn prewarm_labels_and_status_tools() {
    assert_eq!(prewarm_status_label(PREWARM_PENDING), "pending");
    assert_eq!(prewarm_status_label(PREWARM_IN_PROGRESS), "warming");
    assert_eq!(prewarm_status_label(PREWARM_COMPLETE), "complete");
    assert_eq!(prewarm_status_label(PREWARM_FAILED), "failed");
    assert_eq!(prewarm_status_label(PREWARM_SKIPPED), "skipped");
    assert_eq!(prewarm_status_label(200), "unknown");
    assert!(is_status_tool("index_status"));
    assert!(!is_status_tool("search_code"));
    assert_eq!(on_demand_plan(true, true, "search_code"), (true, true));
    assert_eq!(on_demand_plan(true, false, "index_status"), (false, false));
    assert_eq!(on_demand_plan(false, true, "search_code"), (false, false));
}

#[test]
fn warmset_keeps_default_first_and_dedups() {
    let recent = vec!["/b".to_string(), "/a".to_string(), "/c".to_string(), "/b".to_string()];
    assert_eq!(warmset_members("/a", &recent, 3), vec!["/a", "/b", "/c"]);
    assert_eq!(warmset_members("/a", &recent, 2), vec!["/a", "/b"]);
    assert_eq!(warmset_members("/a", &vec![], 0), Vec::<String>::new());
}

#[test]
fn tool_ref_priority() {
    assert_eq!(resolve_tool_ref(Some("x"), Some("y"), Some("z")), "x");
    assert_eq!(resolve_tool_ref(None, Some("y"), Some("z")), "y");
    assert_eq!(resolve_tool_ref(None, None, Some("z")), "z");
    assert_eq!(resolve_tool_ref(None, None, Some("  ")), "live");
    assert_eq!(resolve_tool_ref(None, None, None), "live");
}

#[test]
fn progress_tokens() {
    assert_eq!(request_progress_token(false, Some("t")), None);
    assert_eq!(request_progress_token(true, Some("t")), Some("t".to_string()));
    assert_eq!(request_progress_token(true, None), Some(String::new()));
    assert_eq!(server_progress_token("42"), "index-job-42");
    assert_eq!(effective_progress_token(Some(" "), "index-job-42"), "index-job-42");
    assert_eq!(effective_progress_token(Some("client"), "index-job-42"), "client");
}

#[test]
fn index_operation_checks_and_progress() {
    match index_operation_preflight(false, true, "/ws", "p") {
        Err((code, _, ErrorData::Workspace { workspace, .. })) => {
            assert_eq!(code, ProtocolErrorCode::ProjectNotFound);
            assert_eq!(workspace, "/ws");
        }
        other => panic!("unexpected {other:?}"),
    }
    match index_operation_preflight(true, true, "/ws", "p") {
        Err((code, msg, ErrorData::Project { project_id, .. })) => {
            assert_eq!(code, ProtocolErrorCode::IndexInProgress);
            assert_eq!(msg, "An indexing job is already running.");
            assert_eq!(project_id, "p");
        }
        other => panic!("unexpected {other:?}"),
    }
    assert!(index_operation_preflight(true, false, "/ws", "p").is_ok());
    assert_eq!(index_mode(true), "full");
    assert_eq!(index_mode(false), "incremental");
    assert_eq!(next_poll_sleep_ms(true, 1750), 500);
    assert_eq!(next_poll_sleep_ms(false, 1000), 1250);
    assert_eq!(next_poll_sleep_ms(false, 1900), 2000);
    assert_eq!(progress_stage(0, 0, 0, 0), ("Scanning files: 0 discovered".to_string(), 0));
    assert_eq!(progress_stage(12, 0, 0, 0), ("Scanning files: 12 discovered".to_string(), 10));
    assert_eq!(progress_stage(10, 1, 4, 5), ("Parsing files: 1/10 (5%)".to_string(), 10));
    assert_eq!(progress_stage(10, 8, 40, 80), ("Indexing: 8/10 files, 40 symbols".to_string(), 80));
    assert_eq!(progress_stage(10, 10, 40, 99), ("Finalizing index...".to_string(), 99));
    assert_eq!(progress_stage(-3, 1, 0, 50).0, "Parsing files: 1/-3 (50%)");
}

#[test]
fn index_status_fields() {
    assert_eq!(index_status_label(SchemaStatus::Compatible), "ready");
    assert_eq!(index_status_label(SchemaStatus::ReindexRequired), "not_indexed");
    let jobs = vec![
        JobSummary { ref_name: "main".to_string(), status: "running".to_string(), updated_at: "t3".to_string() },
        JobSummary { ref_name: "dev".to_string(), status: "published".to_string(), updated_at: "t2".to_string() },
        JobSummary { ref_name: "main".to_string(), status: "published".to_string(), updated_at: "t1".to_string() },
    ];
    assert_eq!(last_indexed_at(&jobs, "main"), Some("t1".to_string()));
    assert_eq!(last_indexed_at(&jobs, "other"), None);
}

#[test]
fn protocol_metadata_constructors() {
    let m = ProtocolMetadata::not_indexed("main");
    assert_eq!(m.freshness_status, FreshnessStatus::Stale);
    assert_eq!(m.indexing_status, IndexingStatus::NotIndexed);
    assert_eq!(m.result_completeness, ResultCompleteness::Partial);
    assert_eq!(m.ref_name, "main");
    let m = ProtocolMetadata::new("main").with_active_job(true);
    assert_eq!(m.freshness_status, FreshnessStatus::Syncing);
    assert_eq!(m.indexing_status, IndexingStatus::Indexing);
    let m = validation_metadata("dev", SchemaStatus::CorruptManifest);
    assert_eq!(m.schema_status, SchemaStatus::CorruptManifest);
    assert_eq!(m.indexing_status, IndexingStatus::Failed);
    assert_eq!(m.codecompass_protocol_version, "1.0");
}

#[test]
fn path_parent_matches_std() {
    for p in [
        "/a/b/state.db", "data/state.db", "state.db", "", "/", "/a", "a//b/", "./x", ".", "./", "../a",
        "a/./b/.", "/a/b//", "//", "a/..", "./.", "x/.//",
    ] {
        let expected = std::path::Path::new(p).parent().map(|q| q.to_str().unwrap().to_string());
        let got = path_parent_v(&p.chars().collect()).map(|v| v.into_iter().collect::<String>());
        assert_eq!(got, expected, "parent of {p:?}");
    }
}

fn roots(list: &[&str]) -> AllowedRoots {
    AllowedRoots::new(list.iter().map(|s| s.to_string()).collect())
}

#[test]
fn startup_rejects_auto_workspace_without_allowed_roots() {
    let config = WorkspaceConfig { auto_workspace: true, allowed_roots: AllowedRoots::default(), max_auto_workspaces: 10 };
    let result = WorkspaceRouter::new(config, "/tmp/ws".to_string(), "/tmp/ws/data/state.db".to_string(), None);
    assert!(result.is_err());
    assert!(matches!(result.unwrap_err(), WorkspaceError::AllowedRootRequired));
}

#[test]
fn startup_allows_disabled_auto_workspace_without_roots() {
    let config = WorkspaceConfig { auto_workspace: false, allowed_roots: AllowedRoots::default(), max_auto_workspaces: 10 };
    let result = WorkspaceRouter::new(config, "/tmp/ws".to_string(), "/tmp/ws/data/state.db".to_string(), None);
    assert!(result.is_ok());
}

#[test]
fn security_auto_workspace_requires_allowed_root() {
    let config = WorkspaceConfig { auto_workspace: true, allowed_roots: AllowedRoots::default(), max_auto_workspaces: 10 };
    let result = WorkspaceRouter::new(config, "/tmp/ws".to_string(), "/tmp/ws/data/state.db".to_string(), None);
    assert!(matches!(result, Err(WorkspaceError::AllowedRootRequired)));
}

#[test]
fn router_rejects_state_db_without_data_root() {
    let config = WorkspaceConfig::default();
    match WorkspaceRouter::new(config, "/ws".to_string(), "state.db".to_string(), None) {
        Err(WorkspaceError::NotAllowed { path, reason }) => {
            assert_eq!(path, "state.db");
            assert_eq!(reason, "invalid state.db path; expected <data_root>/data/<project_id>/state.db");
        }
        other => panic!("unexpected {other:?}"),
    }
}

#[test]
fn resolve_none_returns_default_workspace() {
    let router = WorkspaceRouter::new(WorkspaceConfig::default(), "/home/u/repo".to_string(), "/home/u/.cc/data/p/state.db".to_string(), None).unwrap();
    assert!(requested_workspace(None).is_none());
    let resolved = router.default_resolution();
    assert_eq!(resolved.workspace_path, "/home/u/repo");
    assert_eq!(resolved.project_id, router.default_project_id());
    assert_eq!(resolved.project_id, project_id_for_root("/home/u/repo"));
    assert!(!resolved.on_demand_indexing);
    assert!(!resolved.should_bootstrap);
    assert_eq!(router.data_root(), "/home/u/.cc/data");
}

#[test]
fn resolve_empty_string_returns_default_workspace() {
    assert!(requested_workspace(Some("")).is_none());
    assert!(requested_workspace(Some("   ")).is_none());
    assert_eq!(requested_workspace(Some("  /x/y ")), Some("/x/y".to_string()));
}

#[test]
fn resolve_explicit_default_path_returns_default() {
    let router = WorkspaceRouter::new(WorkspaceConfig::default(), "/home/u/repo".to_string(), "/d/data/p/state.db".to_string(), Some("/home/u/repo".to_string())).unwrap();
    assert!(router.resolve_default("/home/u/repo/").is_some());
    assert!(router.resolve_default("/home/u/other").is_none());
}

#[test]
fn router_admits_unknown_workspaces_under_allowed_roots() {
    let cfg = WorkspaceConfig { auto_workspace: true, allowed_roots: roots(&["/allowed"]), max_auto_workspaces: 3 };
    let router = WorkspaceRouter::new(cfg, "/ws".to_string(), "/d/data/p/state.db".to_string(), None).unwrap();
    assert!(router.admit_unknown("/allowed/repo").is_ok());
    match router.admit_unknown("/allowed-evil/repo") {
        Err(WorkspaceError::NotAllowed { reason, .. }) => assert_eq!(reason, "path is outside all --allowed-root prefixes"),
        other => panic!("unexpected {other:?}"),
    }
    assert_eq!(router.eviction_keep(), 2);
    let (dir, inside) = router.evicted_data_dir("/allowed/old");
    assert_eq!(dir, format!("/d/data/{}", project_id_for_root("/allowed/old")));
    assert!(inside);
    let disabled = WorkspaceRouter::new(WorkspaceConfig::default(), "/ws".to_string(), "/d/data/p/state.db".to_string(), None).unwrap();
    assert!(matches!(disabled.admit_unknown("/x"), Err(WorkspaceError::NotRegistered { .. })));
}

#[test]
fn resolution_steps_build_contexts_and_errors() {
    let known = resolve_known("/r", Some("pid".to_string()));
    assert_eq!(known.project_id, "pid");
    assert!(!known.on_demand_indexing);
    let pending = resolve_known("/r", None);
    assert_eq!(pending.project_id, project_id_for_root("/r"));
    assert!(pending.on_demand_indexing);
    let fresh = resolve_registered("/r", true, None);
    assert!(fresh.on_demand_indexing && fresh.should_bootstrap);
    let raced = resolve_registered("/r", false, Some("other".to_string()));
    assert_eq!(raced.project_id, "other");
    assert!(raced.on_demand_indexing && !raced.should_bootstrap);
    match resolution_error(ResolveStep::Database, "/r", "locked") {
        WorkspaceError::NotAllowed { path, reason } => {
            assert_eq!(path, "/r");
            assert_eq!(reason, "database error: locked");
        }
        other => panic!("unexpected {other:?}"),
    }
}

#[test]
fn default_adapter_is_git() {
    let adapter: GitVcsAdapter = default_vcs_adapter();
    let _ = adapter;
}

#[test]
fn context_preflight_order_of_checks() {
    match context_preflight(" ", MaxTokensArg::Unsigned(0), false, false, SchemaStatus::NotIndexed) {
        Err(PreflightFailure::InvalidInput(m)) => assert_eq!(m, "Parameter `query` is required."),
        other => panic!("unexpected {other:?}"),
    }
    match context_preflight("q", MaxTokensArg::Unsigned(0), false, false, SchemaStatus::NotIndexed) {
        Err(PreflightFailure::InvalidMaxTokens(m)) => assert_eq!(m, "Parameter `max_tokens` must be greater than 0."),
        other => panic!("unexpected {other:?}"),
    }
    match context_preflight("q", MaxTokensArg::Absent, false, true, SchemaStatus::Compatible) {
        Err(PreflightFailure::InvalidStrategy(m)) => assert_eq!(m, "Parameter `strategy` must be `breadth` or `depth`."),
        other => panic!("unexpected {other:?}"),
    }
    assert!(matches!(
        context_preflight("q", MaxTokensArg::Absent, true, false, SchemaStatus::Compatible),
        Err(PreflightFailure::Incompatible)
    ));
    assert!(matches!(context_preflight("q", MaxTokensArg::Absent, true, true, SchemaStatus::Compatible), Ok(4000)));
}

#[test]
fn resolve_tool_ref_falls_back_to_project_default_when_head_unavailable() {
    // A directory that is not a git repository has no HEAD branch.
    let resolved = resolve_tool_ref(None, None, Some("main"));
    assert_eq!(resolved, "main");
    let explicit = resolve_tool_ref(Some("feat/auth"), None, Some("main"));
    assert_eq!(explicit, "feat/auth");
}

#[test]
fn session_scope_prefers_mcp_session_id_header() {
    assert_eq!(
        session_scope_from_headers(HeaderText::Text("session-abc"), HeaderText::Text("fallback")).as_deref(),
        Some("session-abc")
    );
    assert_eq!(
        session_scope_from_headers(HeaderText::Absent, HeaderText::Text(" fallback ")).as_deref(),
        Some("fallback")
    );
    assert_eq!(session_scope_from_headers(HeaderText::Opaque, HeaderText::Text("fallback")), None);
    assert_eq!(session_scope_from_headers(HeaderText::Text("  "), HeaderText::Absent), None);
}

#[test]
fn t191_get_code_context_negative_max_tokens_returns_invalid_max_tokens() {
    // `"max_tokens": -1` is a JSON value that is no unsigned integer.
    let outcome = context_preflight("validate_token", MaxTokensArg::Other, true, true, SchemaStatus::Compatible);
    match outcome {
        Err(PreflightFailure::InvalidMaxTokens(_)) => {
            assert_eq!(ProtocolErrorCode::InvalidMaxTokens.as_str(), "invalid_max_tokens")
        }
        other => panic!("unexpected {other:?}"),
    }
}

#[test]
fn jsonrpc_unknown_method_returns_method_not_found() {
    assert_eq!(route_method("unknown/method"), MethodRoute::NotFound);
    assert_eq!(METHOD_NOT_FOUND, -32601);
    assert!(method_not_found_message("unknown/method").contains("Method not found"));
}

#[test]
fn warmset_capacity_takes_positive_settings_only() {
    assert_eq!(warmset_capacity(None), 3);
    assert_eq!(warmset_capacity(Some("7")), 7);
    assert_eq!(warmset_capacity(Some("+2")), 2);
    assert_eq!(warmset_capacity(Some("0")), 3);
    assert_eq!(warmset_capacity(Some("-1")), 3);
    assert_eq!(warmset_capacity(Some("many")), 3);
    assert_eq!(warmset_capacity(Some("")), 3);
}

#[test]
fn project_schema_status_reuses_current_or_opens_target() {
    assert_eq!(
        resolve_project_schema_status("p1", "p1", SchemaStatus::ReindexRequired, None),
        SchemaStatus::ReindexRequired
    );
    assert_eq!(
        resolve_project_schema_status("p1", "p2", SchemaStatus::NotIndexed, None),
        SchemaStatus::Compatible
    );
    let err = StateError::CorruptManifest("bad".to_string());
    assert_eq!(
        resolve_project_schema_status("p1", "p2", SchemaStatus::Compatible, Some(&err)),
        SchemaStatus::CorruptManifest
    );
    let missing = StateError::Io(std::io::Error::new(std::io::ErrorKind::NotFound, "gone"));
    assert_eq!(
        resolve_project_schema_status("p1", "p2", SchemaStatus::Compatible, Some(&missing)),
        SchemaStatus::NotIndexed
    );
}

#[test]
fn index_health_needs_checks_that_all_pass() {
    assert!(!all_checks_ok(&vec![]));
    assert!(all_checks_ok(&vec![true, true]));
    assert!(!all_checks_ok(&vec![true, false, true]));
}

#[test]
fn semantic_advisor_input_counts_files_per_language() {
    let rows = vec![
        ("rust".to_string(), 10i64),
        ("".to_string(), 2),
        ("python".to_string(), -4),
        ("  ".to_string(), 3),
    ];
    let input = semantic_advisor_input("Suggest", &rows).expect("advisor consulted");
    assert_eq!(input.file_count, 15);
    assert_eq!(input.target_latency_ms, 200);
    let mut counts = input.language_counts.clone();
    counts.sort();
    assert_eq!(
        counts,
        vec![("python".to_string(), 0), ("rust".to_string(), 10), ("unknown".to_string(), 3)]
    );
    assert!(semantic_advisor_input("off", &rows).is_none());
    assert!(semantic_advisor_input("suggest", &vec![("go".to_string(), 0)]).is_none());
    assert!(semantic_advisor_input("suggest", &vec![]).is_none());
}

#[test]
fn metadata_records_result_adjustments() {
    let m = ProtocolMetadata::new("main").with_result_adjustments(0, false);
    assert_eq!(m.suppressed_duplicate_count, None);
    assert_eq!(m.safety_limit_applied, None);
    assert_eq!(m.result_completeness, ResultCompleteness::Complete);
    let m = ProtocolMetadata::new("main").with_result_adjustments(2, true);
    assert_eq!(m.suppressed_duplicate_count, Some(2));
    assert_eq!(m.safety_limit_applied, Some(true));
    assert_eq!(m.result_completeness, ResultCompleteness::Truncated);
    assert_eq!(m.ref_name, "main");
}

#[test]
fn context_enrichment_only_at_full_context() {
    assert!(enriches_context(DetailLevel::Context, false));
    assert!(!enriches_context(DetailLevel::Context, true));
    assert!(!enriches_context(DetailLevel::Signature, false));
    assert!(!enriches_context(DetailLevel::Location, false));
}

#[test]
fn io_errors_report_their_text() {
    let err = StateError::Io(std::io::Error::new(std::io::ErrorKind::Other, "disk on fire"));
    let (_, msg, _) = map_state_error(&err);
    assert_eq!(msg, "Tool execution failed: io error: disk on fire");
    let (_, reason) = classify_index_open_error(&err);
    assert_eq!(reason, "Index unavailable: io error: disk on fire");
}

#[test]
fn index_poll_reports() {
    let a = JobProgress { files_scanned: 3, files_indexed: 1, symbols_extracted: 4 };
    assert!(!progress_changed(a, a));
    assert!(progress_changed(a, JobProgress { symbols_extracted: 5, ..a }));
    assert_eq!(completion_title(true), "Indexing complete");
    assert_eq!(completion_title(false), "Indexing failed");
    assert_eq!(indexer_failure_summary(Some(2)), "Error: Indexer exited with code 2");
    assert_eq!(indexer_failure_summary(None), "Error: Indexer exited with code -1");
    assert_eq!(poll_failure_summary("gone"), "Error: Failed to poll indexer process: gone");
    assert_eq!(pending_count_key("sync_repo"), "changed_files");
    assert_eq!(pending_count_key("index_repo"), "file_count");
}

#[test]
fn request_loop_helpers() {
    assert!(skips_request_line("   \t"));
    assert!(!skips_request_line("{}"));
    assert_eq!(JSONRPC_PARSE_ERROR, -32700);
    assert_eq!(parse_error_message("EOF"), "Parse error: EOF");
    assert!(!supports_progress_notifications(None));
    let none = ProgressCapabilities { notifications: false, experimental_notifications: false, experimental_progress: false };
    assert!(!supports_progress_notifications(Some(none)));
    assert!(supports_progress_notifications(Some(ProgressCapabilities { experimental_progress: true, ..none })));
}

#[test]
fn poll_step_reports_only_changes() {
    let start = PollState { last: JobProgress { files_scanned: 0, files_indexed: 0, symbols_extracted: 0 }, sleep_ms: 500 };
    let (s1, note) = poll_step(start, None, 0);
    assert!(note.is_none());
    assert_eq!(s1.sleep_ms, 750);
    let seen = JobProgress { files_scanned: 10, files_indexed: 5, symbols_extracted: 40 };
    let (s2, note) = poll_step(s1, Some(seen), 50);
    assert_eq!(note, Some(("Parsing files: 5/10 (50%)".to_string(), 50)));
    assert_eq!(s2.sleep_ms, 500);
    assert_eq!(s2.last, seen);
    let (s3, note) = poll_step(PollState { sleep_ms: 1900, ..s2 }, Some(seen), 50);
    assert!(note.is_none());
    assert_eq!(s3.sleep_ms, 2000);
}
