use codecompass::config::{
    apply_env_overrides, expand_tilde, normalize_freshness_policy, normalize_ranking_explain_level,
    normalize_semantic_mode, Config, EnvOverrides,
};
use codecompass::errors::{ProtocolErrorCode, StateError};
use codecompass::ids::{compute_symbol_id, compute_symbol_stable_id, job_id_from_parts, project_id_for_root};
use codecompass::tokens::estimate_tokens;
use codecompass::types::{
    AllowedRoots, DetailLevel, FreshnessPolicy, JobStatus, OverlayMergeKey, RankingExplainLevel,
    RefScope, SymbolKind,
};

#[test]
fn normalize_freshness_policy_values() {
    assert_eq!(normalize_freshness_policy("strict"), "strict");
    assert_eq!(normalize_freshness_policy("BALANCED"), "balanced");
    assert_eq!(normalize_freshness_policy("bestEffort"), "best_effort");
    assert_eq!(normalize_freshness_policy("unknown"), "balanced");
}

#[test]
fn normalize_ranking_explain_level_values() {
    assert_eq!(normalize_ranking_explain_level("off"), "off");
    assert_eq!(normalize_ranking_explain_level("BASIC"), "basic");
    assert_eq!(normalize_ranking_explain_level("full"), "full");
    assert_eq!(normalize_ranking_explain_level("unknown"), "off");
}

#[test]
fn normalize_semantic_mode_values() {
    assert_eq!(normalize_semantic_mode("off"), "off");
    assert_eq!(normalize_semantic_mode("shadow"), "shadow");
    assert_eq!(normalize_semantic_mode("ENABLED"), "on");
    assert_eq!(normalize_semantic_mode("unknown"), "off");
}

#[test]
fn normalization_is_idempotent_on_examples() {
    for raw in ["Strict", " best-effort ", "BALANCED", "nonsense"] {
        let once = normalize_freshness_policy(raw);
        assert_eq!(normalize_freshness_policy(&once), once);
    }
    for raw in ["FULL", "basic ", "verbose"] {
        let once = normalize_ranking_explain_level(raw);
        assert_eq!(normalize_ranking_explain_level(&once), once);
    }
    for raw in ["Enabled", "shadow", "hybrid?"] {
        let once = normalize_semantic_mode(raw);
        assert_eq!(normalize_semantic_mode(&once), once);
    }
}

#[test]
fn load_normalization_matches_legacy_debug_flag() {
    let mut config = Config::default();
    config.search.freshness_policy = "invalid".to_string();
    config.search.ranking_explain_level = "verbose".to_string();
    config.search.max_response_bytes = 0;
    config.search.semantic.semantic_mode = "future_mode".to_string();
    config.search.semantic.profile = "".to_string();
    config.debug.ranking_reasons = true;
    let loaded = config.normalized(Some("/home/me"));
    assert_eq!(loaded.search.freshness_policy, "balanced");
    assert_eq!(loaded.search.ranking_explain_level, "full");
    assert_eq!(loaded.search.max_response_bytes, 64 * 1024);
    assert_eq!(loaded.search.semantic.semantic_mode, "off");
    assert_eq!(loaded.search.semantic.profile, "default");
    assert_eq!(loaded.search.freshness_policy_typed(), FreshnessPolicy::Balanced);
    assert_eq!(loaded.search.ranking_explain_level_typed(), RankingExplainLevel::Full);
}

#[test]
fn env_overrides_apply_parsed_values_only() {
    let mut config = Config::default();
    let mut env = EnvOverrides::default();
    env.storage_data_dir = Some("/srv/cc".to_string());
    env.storage_busy_timeout_ms = Some("not-a-number".to_string());
    env.index_default_limit = Some("25".to_string());
    let before_timeout = config.storage.busy_timeout_ms;
    apply_env_overrides(&mut config, &env);
    assert_eq!(config.storage.data_dir, "/srv/cc");
    assert_eq!(config.storage.busy_timeout_ms, before_timeout);
    assert_eq!(config.index.default_limit, 25);
}

#[test]
fn expand_tilde_uses_home_directory() {
    assert_eq!(expand_tilde("~/data", Some("/home/me")), "/home/me/data");
    assert_eq!(expand_tilde("/abs/data", Some("/home/me")), "/abs/data");
    assert_eq!(expand_tilde("~/data", None), "~/data");
}

#[test]
fn project_data_dir_joins_data_and_id() {
    let mut config = Config::default();
    config.storage.data_dir = "/var/cc".to_string();
    assert_eq!(config.project_data_dir("abc123"), "/var/cc/data/abc123");
}

#[test]
fn protocol_error_code_strings_match_registry() {
    assert_eq!(ProtocolErrorCode::InvalidInput.as_str(), "invalid_input");
    assert_eq!(ProtocolErrorCode::WorkspaceNotAllowed.as_str(), "workspace_not_allowed");
    assert_eq!(ProtocolErrorCode::IndexIncompatible.as_str(), "index_incompatible");
    assert_eq!(ProtocolErrorCode::SymbolNotFound.as_str(), "symbol_not_found");
    assert_eq!(ProtocolErrorCode::InternalError.as_str(), "internal_error");
}

#[test]
fn state_error_constructors_and_messages() {
    let e = StateError::sync_in_progress("p1", "main", "j9");
    assert_eq!(e.message(), "sync in progress: project_id=p1, ref=main, job_id=j9");
    let e = StateError::result_not_found("src/a.rs", 42);
    assert_eq!(e.message(), "result not found: path=src/a.rs, line_start=42");
    let e = StateError::sqlite("locked");
    assert_eq!(e.message(), "sqlite error: locked");
    let e = StateError::Io(std::io::Error::new(std::io::ErrorKind::Other, "boom"));
    assert!(e.message().starts_with("io error: "));
}

#[test]
fn estimate_tokens_empty_string() {
    assert_eq!(estimate_tokens(""), 0);
    assert_eq!(estimate_tokens("   \n\t"), 0);
}

#[test]
fn estimate_tokens_single_word() {
    assert_eq!(estimate_tokens("token"), 2);
}

#[test]
fn estimate_tokens_code_snippet_with_identifiers() {
    let snippet = "fn validateUserToken(token: &str) -> bool";
    assert_eq!(estimate_tokens(snippet), 7);
}

#[test]
fn estimate_tokens_large_text_block() {
    let text = "word ".repeat(100);
    assert_eq!(estimate_tokens(&text), 130);
}

#[test]
fn test_symbol_stable_id_line_independence() {
    let id1 = compute_symbol_stable_id(
        "rust",
        &SymbolKind::Function,
        "auth::validate_token",
        Some("fn(token: &str) -> Result<Claims>"),
    );
    let id2 = compute_symbol_stable_id(
        "rust",
        &SymbolKind::Function,
        "auth::validate_token",
        Some("fn(token: &str) -> Result<Claims>"),
    );
    assert_eq!(id1, id2);
}

#[test]
fn test_symbol_stable_id_signature_change() {
    let id1 = compute_symbol_stable_id(
        "rust",
        &SymbolKind::Function,
        "auth::validate_token",
        Some("fn(token: &str) -> Result<Claims>"),
    );
    let id2 = compute_symbol_stable_id(
        "rust",
        &SymbolKind::Function,
        "auth::validate_token",
        Some("fn(token: &str, key: &[u8]) -> Result<Claims>"),
    );
    assert_ne!(id1, id2);
}

#[test]
fn test_symbol_stable_id_no_signature() {
    let id = compute_symbol_stable_id("rust", &SymbolKind::Struct, "auth::Claims", None);
    assert!(!id.is_empty());
    assert_eq!(id.len(), 64);
}

#[test]
fn test_symbol_id_changes_with_line() {
    let id1 = compute_symbol_id("repo", "main", "src/lib.rs", &SymbolKind::Function, 10, "foo");
    let id2 = compute_symbol_id("repo", "main", "src/lib.rs", &SymbolKind::Function, 20, "foo");
    assert_ne!(id1, id2);
}

#[test]
fn stable_id_hashes_the_documented_input() {
    let id = compute_symbol_stable_id("rust", &SymbolKind::Struct, "auth::Claims", None);
    let expected = blake3::hash("stable_id:v1|rust|struct|auth::Claims|".as_bytes())
        .to_hex()
        .to_string();
    assert_eq!(id, expected);
    let sid = compute_symbol_id("repo", "main", "src/lib.rs", &SymbolKind::Function, 10, "foo");
    let expected = blake3::hash("repo|main|src/lib.rs|function|10|foo".as_bytes())
        .to_hex()
        .to_string();
    assert_eq!(sid, expected);
}

#[test]
fn project_id_is_sixteen_hex_digits_of_the_root_hash() {
    let id = project_id_for_root("/home/user/projects/repo");
    let full = blake3::hash("/home/user/projects/repo".as_bytes()).to_hex().to_string();
    assert_eq!(id, full[..16]);
    assert_ne!(id, project_id_for_root("/home/user/projects/other"));
}

#[test]
fn job_id_generation_is_unique_for_small_batch() {
    let ids: Vec<String> = (0..128u64).map(|c| job_id_from_parts(1_700_000_000_000_000_000, 4242, 77, c)).collect();
    let mut unique = ids.clone();
    unique.sort();
    unique.dedup();
    assert_eq!(ids.len(), unique.len());
    assert!(ids.iter().all(|id| id.len() == 32));
}

#[test]
fn job_id_is_zero_padded_hex_of_the_mix() {
    let id = job_id_from_parts(0, 0, 0, 5);
    assert_eq!(id, format!("{:032x}", 5u128));
    let mixed: u128 = 1000 ^ (7u128 << 32) ^ 3 ^ 9;
    assert_eq!(job_id_from_parts(1000, 7, 3, 9), format!("{:032x}", mixed));
}

#[test]
fn test_detail_level_default() {
    assert_eq!(DetailLevel::default(), DetailLevel::Signature);
}

#[test]
fn test_freshness_policy_default() {
    assert_eq!(FreshnessPolicy::default(), FreshnessPolicy::Balanced);
}

#[test]
fn test_symbol_kind_roundtrip() {
    for kind in [
        SymbolKind::Function,
        SymbolKind::Method,
        SymbolKind::Struct,
        SymbolKind::Class,
        SymbolKind::Enum,
        SymbolKind::Trait,
        SymbolKind::Interface,
        SymbolKind::Constant,
    ] {
        assert_eq!(SymbolKind::parse_kind(kind.as_str()), Some(kind));
    }
}

#[test]
fn symbol_kind_every_name_round_trips() {
    for kind in [
        SymbolKind::Function,
        SymbolKind::Method,
        SymbolKind::Struct,
        SymbolKind::Class,
        SymbolKind::Enum,
        SymbolKind::Trait,
        SymbolKind::Interface,
        SymbolKind::Constant,
        SymbolKind::Variable,
        SymbolKind::TypeAlias,
        SymbolKind::Module,
        SymbolKind::Import,
    ] {
        assert_eq!(SymbolKind::parse_kind(kind.as_str()), Some(kind));
    }
    assert_eq!(SymbolKind::parse_kind("no-such-kind"), None);
}

#[test]
fn job_status_names() {
    assert_eq!(JobStatus::RolledBack.as_str(), "rolled_back");
    assert_eq!(JobStatus::Published.as_str(), "published");
}

#[test]
fn ref_scope_live_and_explicit() {
    assert_eq!(RefScope::live().ref_name, "live");
    assert_eq!(RefScope::explicit("feat/x").ref_name, "feat/x");
}

#[test]
fn t201_allowed_roots_prefix_matching() {
    let roots = AllowedRoots::new(vec!["/home/user/projects".to_string()]);
    assert!(roots.contains("/home/user/projects"));
    assert!(roots.contains("/home/user/projects/repo-a"));
    assert!(roots.contains("/home/user/projects/repo-a/src"));
    assert!(!roots.contains("/home/user"));
    assert!(!roots.contains("/home/user/other"));
    assert!(!roots.contains("/tmp/projects"));
}

#[test]
fn t201_allowed_roots_multiple_roots() {
    let roots = AllowedRoots::new(vec!["/home/user/projects".to_string(), "/opt/work".to_string()]);
    assert!(roots.contains("/home/user/projects/repo"));
    assert!(roots.contains("/opt/work/repo"));
    assert!(!roots.contains("/tmp/repo"));
}

#[test]
fn t201_allowed_roots_empty_rejects_all() {
    let roots = AllowedRoots::default();
    assert!(roots.is_empty());
    assert!(!roots.contains("/any/path"));
    assert!(!roots.contains("/"));
}

#[test]
fn t201_allowed_roots_path_traversal_not_fooled() {
    let roots = AllowedRoots::new(vec!["/home/user/projects".to_string()]);
    assert!(!roots.contains("/home/user/projects-evil"));
    assert!(!roots.contains("/home/user/projects_backup"));
}

#[test]
fn overlay_merge_key_equality_and_ordering() {
    let base = OverlayMergeKey::new("repo", "main", "src/lib.rs");
    let overlay_same = OverlayMergeKey::new("repo", "main", "src/lib.rs");
    let overlay_other = OverlayMergeKey::new("repo", "feature", "src/lib.rs");

    assert_eq!(base, overlay_same, "equal logical merge keys must match");
    assert_ne!(base, overlay_other, "ref changes must produce distinct merge keys");

    let mut keys = [
        OverlayMergeKey::new("repo", "feature", "src/z.rs"),
        OverlayMergeKey::new("repo", "feature", "src/a.rs"),
        OverlayMergeKey::new("repo", "main", "src/a.rs"),
    ];
    keys.sort();

    assert_eq!(keys[0], OverlayMergeKey::new("repo", "feature", "src/a.rs"));
    assert_eq!(keys[1], OverlayMergeKey::new("repo", "feature", "src/z.rs"));
    assert_eq!(keys[2], OverlayMergeKey::new("repo", "main", "src/a.rs"));
}

#[test]
fn protocol_error_code_names_are_distinct() {
    let codes = [
        ProtocolErrorCode::InvalidInput,
        ProtocolErrorCode::InvalidStrategy,
        ProtocolErrorCode::InvalidMaxTokens,
        ProtocolErrorCode::ProjectNotFound,
        ProtocolErrorCode::WorkspaceNotRegistered,
        ProtocolErrorCode::WorkspaceNotAllowed,
        ProtocolErrorCode::WorkspaceLimitExceeded,
        ProtocolErrorCode::IndexInProgress,
        ProtocolErrorCode::IndexNotReady,
        ProtocolErrorCode::SyncInProgress,
        ProtocolErrorCode::IndexStale,
        ProtocolErrorCode::IndexIncompatible,
        ProtocolErrorCode::RefNotIndexed,
        ProtocolErrorCode::OverlayNotReady,
        ProtocolErrorCode::MergeBaseFailed,
        ProtocolErrorCode::SymbolNotFound,
        ProtocolErrorCode::AmbiguousSymbol,
        ProtocolErrorCode::FileNotFound,
        ProtocolErrorCode::ResultNotFound,
        ProtocolErrorCode::NoEdgesAvailable,
        ProtocolErrorCode::InternalError,
    ];
    let mut names: Vec<&str> = codes.iter().map(|c| c.as_str()).collect();
    names.sort();
    names.dedup();
    assert_eq!(names.len(), codes.len());
}
