use codecompass::indexing::{
    content_hash, content_head, file_unchanged, index_effective_ref, index_job_id, indexed_commit,
    overlay_sync_id, progress_update_due, rebuild_incompatible_on_force, stale_manifest_paths, uses_overlay_sync,
};
use codecompass::errors::StateError;
use codecompass::project_setup::{indexer_args, needs_project_remap, new_project_default_ref, repo_table_remap_statements};
use codecompass::languages::syntax::{ExtractedSymbol, SyntaxNode};
use codecompass::languages::{go, python, rust};
use codecompass::sorted_text::sort_names;
use codecompass::overlay::{
    backup_dir_name,
    normalize_overlay_ref, overlay_dir_for_ref, overlay_root, staging_dir, staging_root, WriteTarget,
};
use codecompass::index_docs::{file_document, file_key, snippet_document, symbol_document, DocField, FieldValue};
use codecompass::types::{FileRecord, SnippetRecord, SymbolKind, SymbolRecord};
use std::collections::HashSet;

#[test]
fn normalize_overlay_ref_preserves_safe_and_encodes_unsafe() {
    assert_eq!(normalize_overlay_ref("main"), "main");
    assert_eq!(normalize_overlay_ref("feat/auth"), "feat-auth");
    assert_eq!(normalize_overlay_ref("feat/auth#2 with spaces"), "feat-auth%232%20with%20spaces");
}

#[test]
fn normalized_refs_are_single_path_components() {
    for r in ["a/b/c", "../escape", "x y/z", "ünïcödé/branch"] {
        let n = normalize_overlay_ref(r);
        assert!(!n.contains('/'), "{n}");
    }
    assert_eq!(normalize_overlay_ref("é"), "%C3%A9");
}

#[test]
fn overlay_and_staging_paths() {
    assert_eq!(overlay_root("/data"), "/data/overlay");
    assert_eq!(overlay_dir_for_ref("/data", "feat/x"), "/data/overlay/feat-x");
    assert_eq!(staging_root("/data/"), "/data/staging");
    assert_eq!(staging_dir("/data", "sync-1"), "/data/staging/sync-1");
}

#[test]
fn write_target_resolves_expected_paths() {
    let data_dir = "/tmp/cc-data";
    let base = WriteTarget::Base.index_root(data_dir);
    assert_eq!(base, "/tmp/cc-data/base");
    let overlay = WriteTarget::Overlay { branch: "feat/auth#2" }.index_root(data_dir);
    assert_eq!(overlay, "/tmp/cc-data/overlay/feat-auth%232");
    let staging = WriteTarget::Staging { sync_id: "sync-1" }.index_root(data_dir);
    assert_eq!(staging, "/tmp/cc-data/staging/sync-1");
}

#[test]
fn extract_imports_handles_single_grouped_and_aliased_forms() {
    let source = r#"
import "fmt"
import (
    "github.com/org/pkg/auth"
    cfg "github.com/org/pkg/config"
)
"#;
    let imports = go::extract_imports(source, "main.go");
    let qualified_targets: HashSet<String> =
        imports.iter().map(|item| item.target_qualified_name.clone()).collect();
    assert!(qualified_targets.contains("fmt"));
    assert!(qualified_targets.contains("github.com/org/pkg/auth"));
    assert!(qualified_targets.contains("github.com/org/pkg/config"));

    let target_names: HashSet<String> = imports.into_iter().map(|item| item.target_name).collect();
    assert!(target_names.contains("fmt"));
    assert!(target_names.contains("auth"));
    assert!(target_names.contains("cfg"));
}

#[test]
fn extract_imports_handles_absolute_from_relative_and_alias_forms() {
    let source = r#"
import os
from auth.jwt import validate_token
from .models import User as AppUser
"#;
    let imports = python::extract_imports(source, "pkg/handlers.py");
    let qualified_targets: HashSet<String> =
        imports.iter().map(|item| item.target_qualified_name.clone()).collect();
    assert!(qualified_targets.contains("os"));
    assert!(qualified_targets.contains("auth.jwt.validate_token"));
    assert!(qualified_targets.contains("pkg.models.User"));

    let target_names: HashSet<String> = imports.into_iter().map(|item| item.target_name).collect();
    assert!(target_names.contains("os"));
    assert!(target_names.contains("validate_token"));
    assert!(target_names.contains("User"));
}

#[test]
fn extract_imports_multiline_parenthesized() {
    let source = r#"
from auth.jwt import (
    validate_token,
    refresh_token,
    Claims,
)
"#;
    let imports = python::extract_imports(source, "pkg/handlers.py");
    let target_names: HashSet<String> = imports.into_iter().map(|item| item.target_name).collect();
    assert!(target_names.contains("validate_token"), "missing validate_token");
    assert!(target_names.contains("refresh_token"), "missing refresh_token");
    assert!(target_names.contains("Claims"), "missing Claims");
}

#[test]
fn extract_imports_simple_use_item() {
    let source = "use crate::auth::Claims;";
    let imports = rust::extract_imports(source, "src/lib.rs");
    let targets: HashSet<String> = imports.into_iter().map(|item| item.target_qualified_name).collect();
    assert!(targets.contains("auth::Claims"));
}

#[test]
fn extract_imports_nested_use_expands_to_multiple_targets() {
    let source = "use a::{b, c};";
    let imports = rust::extract_imports(source, "src/lib.rs");
    let targets: HashSet<String> = imports.into_iter().map(|item| item.target_qualified_name).collect();
    assert!(targets.contains("a::b"));
    assert!(targets.contains("a::c"));
}

#[test]
fn extract_imports_glob_use_keeps_wildcard_target() {
    let source = "use a::*;";
    let imports = rust::extract_imports(source, "src/lib.rs");
    assert_eq!(imports.len(), 1);
    assert_eq!(imports[0].target_qualified_name, "a::*");
}

#[test]
fn import_lines_and_source_names() {
    let imports = rust::extract_imports("\n\nuse std::{io, fmt::Write};\n", "src/main.rs");
    assert_eq!(imports.len(), 2);
    assert!(imports.iter().all(|i| i.import_line == 3));
    assert!(imports.iter().all(|i| i.source_qualified_name == "file::src/main.rs"));
    let names: Vec<&str> = imports.iter().map(|i| i.target_name.as_str()).collect();
    assert_eq!(names, vec!["io", "Write"]);
}

#[test]
fn python_relative_module_resolution() {
    assert_eq!(python::resolve_python_module("pkg/handlers.py", ".models"), "pkg.models");
    assert_eq!(python::resolve_python_module("pkg/sub/handlers.py", "..util"), "pkg.util");
    assert_eq!(python::resolve_python_module("pkg/handlers.py", "os"), "os");
}

fn leaf(kind: &str, field: Option<&str>, text: &str, row: u32) -> SyntaxNode {
    SyntaxNode {
        kind: kind.to_string(),
        field: field.map(|f| f.to_string()),
        text: text.to_string(),
        start_row: row,
        end_row: row,
        children: Vec::new(),
    }
}

fn node(kind: &str, field: Option<&str>, text: &str, rows: (u32, u32), children: Vec<SyntaxNode>) -> SyntaxNode {
    SyntaxNode {
        kind: kind.to_string(),
        field: field.map(|f| f.to_string()),
        text: text.to_string(),
        start_row: rows.0,
        end_row: rows.1,
        children,
    }
}

fn summary(symbols: &[ExtractedSymbol]) -> Vec<(String, String, SymbolKind, u32, u32)> {
    symbols
        .iter()
        .map(|s| (s.name.clone(), s.qualified_name.clone(), s.kind, s.line_start, s.line_end))
        .collect()
}

#[test]
fn rust_symbols_from_syntax_tree() {
    let fn_text = "pub fn validate(token: &str) -> bool {\n    true\n}";
    let tree = node(
        "source_file",
        None,
        "",
        (0, 20),
        vec![
            node(
                "struct_item",
                None,
                "pub struct Claims { sub: String }",
                (0, 0),
                vec![leaf("visibility_modifier", None, "pub", 0), leaf("type_identifier", Some("name"), "Claims", 0)],
            ),
            node(
                "impl_item",
                None,
                "impl Claims { fn is_valid(&self) -> bool { true } }",
                (2, 4),
                vec![
                    leaf("type_identifier", Some("type"), "Claims", 2),
                    node(
                        "declaration_list",
                        Some("body"),
                        "{ ... }",
                        (2, 4),
                        vec![node(
                            "function_item",
                            None,
                            "fn is_valid(&self) -> bool { true }",
                            (3, 3),
                            vec![leaf("identifier", Some("name"), "is_valid", 3)],
                        )],
                    ),
                ],
            ),
            node(
                "function_item",
                None,
                fn_text,
                (6, 8),
                vec![leaf("visibility_modifier", None, "pub", 6), leaf("identifier", Some("name"), "validate", 6)],
            ),
            node(
                "mod_item",
                None,
                "mod inner { const LIMIT: u32 = 3; }",
                (10, 12),
                vec![
                    leaf("identifier", Some("name"), "inner", 10),
                    node(
                        "declaration_list",
                        Some("body"),
                        "{ const LIMIT: u32 = 3; }",
                        (10, 12),
                        vec![node(
                            "const_item",
                            None,
                            "const LIMIT: u32 = 3;",
                            (11, 11),
                            vec![leaf("identifier", Some("name"), "LIMIT", 11)],
                        )],
                    ),
                ],
            ),
        ],
    );
    let symbols = rust::extract(&tree);
    assert_eq!(
        summary(&symbols),
        vec![
            ("Claims".to_string(), "Claims".to_string(), SymbolKind::Struct, 1, 1),
            ("is_valid".to_string(), "Claims::is_valid".to_string(), SymbolKind::Method, 4, 4),
            ("validate".to_string(), "validate".to_string(), SymbolKind::Function, 7, 9),
            ("inner".to_string(), "inner".to_string(), SymbolKind::Module, 11, 13),
            ("LIMIT".to_string(), "inner::LIMIT".to_string(), SymbolKind::Constant, 12, 12),
        ]
    );
    assert_eq!(symbols[0].visibility.as_deref(), Some("pub"));
    assert_eq!(symbols[1].parent_name.as_deref(), Some("Claims"));
    assert_eq!(symbols[2].signature.as_deref(), Some("pub fn validate(token: &str) -> bool {"));
    assert_eq!(symbols[2].body.as_deref(), Some(fn_text));
    assert!(symbols.iter().all(|s| s.language == "rust"));
}

#[test]
fn go_symbols_from_syntax_tree() {
    let tree = node(
        "source_file",
        None,
        "",
        (0, 30),
        vec![
            node(
                "function_declaration",
                None,
                "func Serve() error {\n}",
                (0, 1),
                vec![leaf("identifier", Some("name"), "Serve", 0)],
            ),
            node(
                "method_declaration",
                None,
                "func (s *Server) start() {\n}",
                (3, 4),
                vec![
                    node(
                        "parameter_list",
                        Some("receiver"),
                        "(s *Server)",
                        (3, 3),
                        vec![node(
                            "parameter_declaration",
                            None,
                            "s *Server",
                            (3, 3),
                            vec![leaf("identifier", Some("name"), "s", 3), leaf("pointer_type", Some("type"), "*Server", 3)],
                        )],
                    ),
                    leaf("field_identifier", Some("name"), "start", 3),
                ],
            ),
            node(
                "type_declaration",
                None,
                "type ( Server struct{}; Handler interface{}; ID string )",
                (6, 10),
                vec![
                    node(
                        "type_spec",
                        None,
                        "Server struct{}",
                        (7, 7),
                        vec![leaf("type_identifier", Some("name"), "Server", 7), leaf("struct_type", Some("type"), "struct{}", 7)],
                    ),
                    node(
                        "type_spec",
                        None,
                        "Handler interface{}",
                        (8, 8),
                        vec![leaf("type_identifier", Some("name"), "Handler", 8), leaf("interface_type", Some("type"), "interface{}", 8)],
                    ),
                    node(
                        "type_spec",
                        None,
                        "id string",
                        (9, 9),
                        vec![leaf("type_identifier", Some("name"), "id", 9), leaf("type_identifier", Some("type"), "string", 9)],
                    ),
                ],
            ),
            node(
                "const_declaration",
                None,
                "const Max = 3",
                (12, 12),
                vec![node("const_spec", None, "Max = 3", (12, 12), vec![leaf("identifier", Some("name"), "Max", 12)])],
            ),
        ],
    );
    let symbols = go::extract(&tree);
    assert_eq!(
        summary(&symbols),
        vec![
            ("Serve".to_string(), "Serve".to_string(), SymbolKind::Function, 1, 2),
            ("start".to_string(), "Server.start".to_string(), SymbolKind::Method, 4, 5),
            ("Server".to_string(), "Server".to_string(), SymbolKind::Struct, 8, 8),
            ("Handler".to_string(), "Handler".to_string(), SymbolKind::Interface, 9, 9),
            ("id".to_string(), "id".to_string(), SymbolKind::TypeAlias, 10, 10),
            ("Max".to_string(), "Max".to_string(), SymbolKind::Constant, 13, 13),
        ]
    );
    assert_eq!(symbols[0].visibility.as_deref(), Some("public"));
    assert_eq!(symbols[1].visibility.as_deref(), Some("private"));
    assert_eq!(symbols[1].parent_name.as_deref(), Some("Server"));
    assert_eq!(symbols[0].signature.as_deref(), Some("func Serve() error {"));
    assert_eq!(symbols[4].visibility.as_deref(), Some("private"));
}

#[test]
fn python_symbols_from_syntax_tree() {
    let tree = node(
        "module",
        None,
        "",
        (0, 20),
        vec![
            node(
                "expression_statement",
                None,
                "TIMEOUT = 5",
                (0, 0),
                vec![node(
                    "assignment",
                    None,
                    "TIMEOUT = 5",
                    (0, 0),
                    vec![leaf("identifier", Some("left"), "TIMEOUT", 0), leaf("integer", Some("right"), "5", 0)],
                )],
            ),
            node(
                "class_definition",
                None,
                "class Auth:\n    def _check(self): pass",
                (2, 3),
                vec![
                    leaf("identifier", Some("name"), "Auth", 2),
                    node(
                        "block",
                        Some("body"),
                        "def _check(self): pass",
                        (3, 3),
                        vec![node(
                            "function_definition",
                            None,
                            "def _check(self): pass",
                            (3, 3),
                            vec![leaf("identifier", Some("name"), "_check", 3)],
                        )],
                    ),
                ],
            ),
            node(
                "decorated_definition",
                None,
                "@cache\ndef load(): pass",
                (5, 6),
                vec![
                    leaf("decorator", None, "@cache", 5),
                    node(
                        "function_definition",
                        Some("definition"),
                        "def load(): pass",
                        (6, 6),
                        vec![leaf("identifier", Some("name"), "load", 6)],
                    ),
                ],
            ),
        ],
    );
    let symbols = python::extract(&tree);
    assert_eq!(
        summary(&symbols),
        vec![
            ("TIMEOUT".to_string(), "TIMEOUT".to_string(), SymbolKind::Variable, 1, 1),
            ("Auth".to_string(), "Auth".to_string(), SymbolKind::Class, 3, 4),
            ("_check".to_string(), "Auth._check".to_string(), SymbolKind::Method, 4, 4),
            ("load".to_string(), "load".to_string(), SymbolKind::Function, 7, 7),
        ]
    );
    assert_eq!(symbols[2].visibility.as_deref(), Some("private"));
    assert_eq!(symbols[3].visibility.as_deref(), Some("public"));
    assert_eq!(symbols[1].visibility, None);
}

#[test]
fn index_run_decisions() {
    assert_eq!(index_effective_ref(Some("feat"), true, Some("main"), "dev"), "feat");
    assert_eq!(index_effective_ref(None, true, Some("topic"), "main"), "topic");
    assert_eq!(index_effective_ref(None, true, None, "main"), "main");
    assert_eq!(index_effective_ref(None, false, Some("topic"), "main"), "main");
    assert!(uses_overlay_sync(true, "feat", "main"));
    assert!(!uses_overlay_sync(true, "main", "main"));
    assert!(!uses_overlay_sync(false, "feat", "main"));
    assert_eq!(overlay_sync_id("abc"), "sync-abc");
    assert_eq!(index_job_id(Some("  "), "gen"), "gen");
    assert_eq!(index_job_id(Some("given"), "gen"), "given");
    assert_eq!(index_job_id(None, "gen"), "gen");
    assert_eq!(indexed_commit(true, Some("deadbeef"), "main"), "deadbeef");
    assert_eq!(indexed_commit(true, None, "main"), "main");
    assert_eq!(indexed_commit(false, Some("deadbeef"), "main"), "main");
}

#[test]
fn forced_runs_rebuild_only_incompatible_indices() {
    let outdated = StateError::SchemaMigrationRequired { current: 1, required: 2 };
    let corrupt = StateError::CorruptManifest("bad".to_string());
    let other = StateError::Tantivy("x".to_string());
    assert!(rebuild_incompatible_on_force(true, &outdated));
    assert!(rebuild_incompatible_on_force(true, &corrupt));
    assert!(!rebuild_incompatible_on_force(true, &other));
    assert!(!rebuild_incompatible_on_force(false, &outdated));
}

#[test]
fn stale_manifest_entries_are_those_not_scanned() {
    let manifest = vec!["a.rs".to_string(), "b.rs".to_string(), "c.rs".to_string()];
    let scanned = vec!["c.rs".to_string(), "a.rs".to_string()];
    assert_eq!(stale_manifest_paths(&manifest, &scanned), vec!["b.rs".to_string()]);
}

#[test]
fn content_hash_and_unchanged_files() {
    let h = content_hash("fn main() {}\n");
    assert_eq!(h, blake3::hash(b"fn main() {}\n").to_hex().to_string());
    assert!(file_unchanged(false, Some(h.as_str()), &h));
    assert!(!file_unchanged(true, Some(h.as_str()), &h));
    assert!(!file_unchanged(false, None, &h));
}

#[test]
fn content_head_keeps_twenty_lines() {
    let text: String = (1..=30).map(|i| format!("line {i}\r\n")).collect();
    let head = content_head(&text);
    let expected: Vec<String> = (1..=20).map(|i| format!("line {i}")).collect();
    assert_eq!(head, expected.join("\n"));
    assert_eq!(content_head("a\nb"), "a\nb");
    assert_eq!(content_head(""), "");
}

fn field_text<'a>(doc: &'a [DocField], name: &str) -> Option<&'a str> {
    doc.iter().find(|f| f.name == name).and_then(|f| match &f.value {
        FieldValue::Text(t) => Some(t.as_str()),
        FieldValue::Number(_) => None,
    })
}

fn field_number(doc: &[DocField], name: &str) -> Option<u64> {
    doc.iter().find(|f| f.name == name).and_then(|f| match &f.value {
        FieldValue::Number(n) => Some(*n),
        FieldValue::Text(_) => None,
    })
}

#[test]
fn file_key_joins_repo_ref_and_path() {
    assert_eq!(file_key("repo1", "main", "src/lib.rs"), "repo1|main|src/lib.rs");
    assert_eq!(file_key("", "", ""), "||");
}

#[test]
fn symbol_document_holds_every_field() {
    let sym = SymbolRecord {
        repo: "r".to_string(),
        ref_name: "main".to_string(),
        commit: None,
        path: "src/a.rs".to_string(),
        language: "rust".to_string(),
        symbol_id: "sid".to_string(),
        symbol_stable_id: "stable".to_string(),
        name: "run".to_string(),
        qualified_name: "a::run".to_string(),
        kind: SymbolKind::Function,
        signature: Some("fn run()".to_string()),
        line_start: 3,
        line_end: 9,
        parent_symbol_id: None,
        visibility: Some("pub".to_string()),
        content: None,
    };
    let doc = symbol_document(&sym);
    assert_eq!(doc.len(), 16);
    assert_eq!(field_text(&doc, "file_key"), Some("r|main|src/a.rs"));
    assert_eq!(field_text(&doc, "commit"), Some(""));
    assert_eq!(field_text(&doc, "symbol_exact"), Some("run"));
    assert_eq!(field_text(&doc, "kind"), Some("function"));
    assert_eq!(field_text(&doc, "visibility"), Some("pub"));
    assert_eq!(field_text(&doc, "signature"), Some("fn run()"));
    assert_eq!(field_text(&doc, "content"), Some(""));
    assert_eq!(field_number(&doc, "line_start"), Some(3));
    assert_eq!(field_number(&doc, "line_end"), Some(9));
}

#[test]
fn snippet_and_file_documents_hold_every_field() {
    let snip = SnippetRecord {
        repo: "r".to_string(),
        ref_name: "dev".to_string(),
        commit: Some("abc".to_string()),
        path: "m.py".to_string(),
        language: "python".to_string(),
        chunk_type: "function_body".to_string(),
        imports: None,
        line_start: 1,
        line_end: 2,
        content: "def f(): pass".to_string(),
    };
    let doc = snippet_document(&snip);
    assert_eq!(doc.len(), 11);
    assert_eq!(field_text(&doc, "file_key"), Some("r|dev|m.py"));
    assert_eq!(field_text(&doc, "commit"), Some("abc"));
    assert_eq!(field_text(&doc, "imports"), Some(""));
    assert_eq!(field_text(&doc, "chunk_type"), Some("function_body"));
    assert_eq!(field_number(&doc, "line_end"), Some(2));

    let file = FileRecord {
        repo: "r".to_string(),
        ref_name: "dev".to_string(),
        commit: None,
        path: "pkg/m.py".to_string(),
        filename: "m.py".to_string(),
        language: "python".to_string(),
        content_hash: "h".to_string(),
        size_bytes: 10,
        updated_at: "2024-01-01T00:00:00Z".to_string(),
        content_head: Some("import os".to_string()),
    };
    let fdoc = file_document(&file);
    assert_eq!(fdoc.len(), 9);
    assert_eq!(field_text(&fdoc, "file_key"), Some("r|dev|pkg/m.py"));
    assert_eq!(field_text(&fdoc, "filename"), Some("m.py"));
    assert_eq!(field_text(&fdoc, "content_head"), Some("import os"));
    assert_eq!(field_text(&fdoc, "commit"), Some(""));
}

#[test]
fn progress_is_recorded_every_hundred_files() {
    assert!(!progress_update_due(1));
    assert!(!progress_update_due(99));
    assert!(progress_update_due(100));
    assert!(progress_update_due(300));
    assert!(!progress_update_due(301));
}

#[test]
fn new_project_gets_branch_main_or_live() {
    assert_eq!(new_project_default_ref(true, Some("dev")), "dev");
    assert_eq!(new_project_default_ref(true, None), "main");
    assert_eq!(new_project_default_ref(false, Some("dev")), "live");
}

#[test]
fn import_remaps_every_project_table() {
    let stmts = repo_table_remap_statements();
    assert_eq!(stmts.len(), 6);
    assert_eq!(stmts[0], "UPDATE file_manifest SET repo = ?1 WHERE repo = ?2");
    assert_eq!(stmts[5], "UPDATE worktree_leases SET repo = ?1 WHERE repo = ?2");
    assert!(needs_project_remap("a", "b"));
    assert!(!needs_project_remap("a", "a"));
}

#[test]
fn file_keys_of_other_refs_differ() {
    let a = file_key("repo", "main", "src/a.rs");
    let b = file_key("repo", "feat", "src/a.rs");
    let c = file_key("repo", "main", "src/b.rs");
    assert_ne!(a, b);
    assert_ne!(a, c);
    assert_eq!(a, file_key("repo", "main", "src/a.rs"));
}

#[test]
fn indexer_launch_arguments() {
    assert_eq!(indexer_args("/w", None), vec!["index", "--path", "/w"]);
    assert_eq!(
        indexer_args("/w", Some("/w/.codecompass/config.toml")),
        vec!["index", "--path", "/w", "--config", "/w/.codecompass/config.toml"]
    );
}

#[test]
fn line_numbers_of_the_last_rows_wrap() {
    let tree = node(
        "source_file",
        None,
        "",
        (u32::MAX - 1, u32::MAX),
        vec![node(
            "function_item",
            None,
            "fn last() {}",
            (u32::MAX - 1, u32::MAX),
            vec![leaf("identifier", Some("name"), "last", u32::MAX - 1)],
        )],
    );
    let symbols = rust::extract(&tree);
    assert_eq!(symbols.len(), 1);
    assert_eq!(symbols[0].line_start, u32::MAX);
    assert_eq!(symbols[0].line_end, 0);
}

#[test]
fn overlay_backup_names() {
    assert_eq!(backup_dir_name(Some("feat-auth"), "sync-1"), "feat-auth.bak.sync-1");
    assert_eq!(backup_dir_name(None, "s"), "overlay.bak.s");
}

#[test]
fn names_sort_like_strings() {
    let names = vec!["b".to_string(), "a".to_string(), "ab".to_string(), "B".to_string(), "é".to_string(), "a".to_string()];
    let mut expected = names.clone();
    expected.sort();
    assert_eq!(sort_names(names), expected);
    assert_eq!(sort_names(Vec::new()), Vec::<String>::new());
}
