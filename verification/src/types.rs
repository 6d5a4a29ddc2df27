//! Shared domain types: projects, symbols, snippets, files, edges, protocol
//! status enums, overlay merge keys and workspace root checks.

use vstd::prelude::*;
use crate::constants::REF_LIVE;
use crate::paths::{path_starts_with, path_starts_with_v};
use crate::text::{chars_of, concat, decimal, decimal_v, str_eq, string_of};

verus! {

/// A registered workspace/project.
#[derive(Debug, Clone)]
pub struct Project {
    pub project_id: String,
    pub repo_root: String,
    pub display_name: Option<String>,
    pub default_ref: String,
    pub vcs_mode: bool,
    pub schema_version: u32,
    pub parser_version: u32,
    pub created_at: String,
    pub updated_at: String,
}

/// Symbol kinds recognized by the indexer.
#[derive(Debug, Clone, Copy, PartialEq, Eq, Hash, Structural)]
pub enum SymbolKind {
    Function,
    Method,
    Struct,
    Class,
    Enum,
    Trait,
    Interface,
    Constant,
    Variable,
    TypeAlias,
    Module,
    Import,
}

/// Canonical name of a symbol kind.
pub open spec fn kind_name(k: SymbolKind) -> Seq<char> {
    match k {
        SymbolKind::Function => "function"@,
        SymbolKind::Method => "method"@,
        SymbolKind::Struct => "struct"@,
        SymbolKind::Class => "class"@,
        SymbolKind::Enum => "enum"@,
        SymbolKind::Trait => "trait"@,
        SymbolKind::Interface => "interface"@,
        SymbolKind::Constant => "constant"@,
        SymbolKind::Variable => "variable"@,
        SymbolKind::TypeAlias => "type_alias"@,
        SymbolKind::Module => "module"@,
        SymbolKind::Import => "import"@,
    }
}

/// The kind a name denotes: canonical names and common language keywords.
pub open spec fn parse_kind_spec(s: Seq<char>) -> Option<SymbolKind> {
    if s == "function"@ || s == "fn"@ || s == "func"@ || s == "def"@ {
        Some(SymbolKind::Function)
    } else if s == "method"@ {
        Some(SymbolKind::Method)
    } else if s == "struct"@ {
        Some(SymbolKind::Struct)
    } else if s == "class"@ {
        Some(SymbolKind::Class)
    } else if s == "enum"@ {
        Some(SymbolKind::Enum)
    } else if s == "trait"@ {
        Some(SymbolKind::Trait)
    } else if s == "interface"@ {
        Some(SymbolKind::Interface)
    } else if s == "constant"@ || s == "const"@ {
        Some(SymbolKind::Constant)
    } else if s == "variable"@ || s == "var"@ {
        Some(SymbolKind::Variable)
    } else if s == "type_alias"@ || s == "type"@ {
        Some(SymbolKind::TypeAlias)
    } else if s == "module"@ || s == "mod"@ {
        Some(SymbolKind::Module)
    } else if s == "import"@ || s == "use"@ {
        Some(SymbolKind::Import)
    } else {
        None
    }
}

impl SymbolKind {
    pub fn as_str(&self) -> (r: &'static str)
        ensures
            r@ == kind_name(*self),
    {
        match self {
            SymbolKind::Function => "function",
            SymbolKind::Method => "method",
            SymbolKind::Struct => "struct",
            SymbolKind::Class => "class",
            SymbolKind::Enum => "enum",
            SymbolKind::Trait => "trait",
            SymbolKind::Interface => "interface",
            SymbolKind::Constant => "constant",
            SymbolKind::Variable => "variable",
            SymbolKind::TypeAlias => "type_alias",
            SymbolKind::Module => "module",
            SymbolKind::Import => "import",
        }
    }

    pub fn parse_kind(s: &str) -> (r: Option<SymbolKind>)
        ensures
            r == parse_kind_spec(s@),
    {
        if str_eq(s, "function") || str_eq(s, "fn") || str_eq(s, "func") || str_eq(s, "def") {
            Some(SymbolKind::Function)
        } else if str_eq(s, "method") {
            Some(SymbolKind::Method)
        } else if str_eq(s, "struct") {
            Some(SymbolKind::Struct)
        } else if str_eq(s, "class") {
            Some(SymbolKind::Class)
        } else if str_eq(s, "enum") {
            Some(SymbolKind::Enum)
        } else if str_eq(s, "trait") {
            Some(SymbolKind::Trait)
        } else if str_eq(s, "interface") {
            Some(SymbolKind::Interface)
        } else if str_eq(s, "constant") || str_eq(s, "const") {
            Some(SymbolKind::Constant)
        } else if str_eq(s, "variable") || str_eq(s, "var") {
            Some(SymbolKind::Variable)
        } else if str_eq(s, "type_alias") || str_eq(s, "type") {
            Some(SymbolKind::TypeAlias)
        } else if str_eq(s, "module") || str_eq(s, "mod") {
            Some(SymbolKind::Module)
        } else if str_eq(s, "import") || str_eq(s, "use") {
            Some(SymbolKind::Import)
        } else {
            None
        }
    }
}

/// Parsing the canonical name of a kind gives that kind back, so distinct
/// kinds have distinct names.
pub proof fn lemma_kind_name_roundtrip(k: SymbolKind)
    ensures
        parse_kind_spec(kind_name(k)) == Some(k),
{
    reveal_strlit("function");
    reveal_strlit("fn");
    reveal_strlit("func");
    reveal_strlit("def");
    reveal_strlit("method");
    reveal_strlit("struct");
    reveal_strlit("class");
    reveal_strlit("enum");
    reveal_strlit("trait");
    reveal_strlit("interface");
    reveal_strlit("constant");
    reveal_strlit("const");
    reveal_strlit("variable");
    reveal_strlit("var");
    reveal_strlit("type_alias");
    reveal_strlit("type");
    reveal_strlit("module");
    reveal_strlit("mod");
    reveal_strlit("import");
    reveal_strlit("use");
    let n = kind_name(k);
    match k {
        SymbolKind::Function => {
        },
        SymbolKind::Method => {
            assert(n[0] != "function"@[0]);
            assert(n[0] != "fn"@[0]);
            assert(n[0] != "func"@[0]);
            assert(n[0] != "def"@[0]);
        },
        SymbolKind::Struct => {
            assert(n[0] != "function"@[0]);
            assert(n[0] != "fn"@[0]);
            assert(n[0] != "func"@[0]);
            assert(n[0] != "def"@[0]);
            assert(n[0] != "method"@[0]);
        },
        SymbolKind::Class => {
            assert(n[0] != "function"@[0]);
            assert(n[0] != "fn"@[0]);
            assert(n[0] != "func"@[0]);
            assert(n[0] != "def"@[0]);
            assert(n[0] != "method"@[0]);
            assert(n[0] != "struct"@[0]);
        },
        SymbolKind::Enum => {
            assert(n[0] != "function"@[0]);
            assert(n[0] != "fn"@[0]);
            assert(n[0] != "func"@[0]);
            assert(n[0] != "def"@[0]);
            assert(n[0] != "method"@[0]);
            assert(n[0] != "struct"@[0]);
            assert(n[0] != "class"@[0]);
        },
        SymbolKind::Trait => {
            assert(n[0] != "function"@[0]);
            assert(n[0] != "fn"@[0]);
            assert(n[0] != "func"@[0]);
            assert(n[0] != "def"@[0]);
            assert(n[0] != "method"@[0]);
            assert(n[0] != "struct"@[0]);
            assert(n[0] != "class"@[0]);
            assert(n[0] != "enum"@[0]);
        },
        SymbolKind::Interface => {
            assert(n[0] != "function"@[0]);
            assert(n[0] != "fn"@[0]);
            assert(n[0] != "func"@[0]);
            assert(n[0] != "def"@[0]);
            assert(n[0] != "method"@[0]);
            assert(n[0] != "struct"@[0]);
            assert(n[0] != "class"@[0]);
            assert(n[0] != "enum"@[0]);
            assert(n[0] != "trait"@[0]);
        },
        SymbolKind::Constant => {
            assert(n[0] != "function"@[0]);
            assert(n[0] != "fn"@[0]);
            assert(n[0] != "func"@[0]);
            assert(n[0] != "def"@[0]);
            assert(n[0] != "method"@[0]);
            assert(n[0] != "struct"@[0]);
            assert(n[1] != "class"@[1]);
            assert(n[0] != "enum"@[0]);
            assert(n[0] != "trait"@[0]);
            assert(n[0] != "interface"@[0]);
        },
        SymbolKind::Variable => {
            assert(n[0] != "function"@[0]);
            assert(n[0] != "fn"@[0]);
            assert(n[0] != "func"@[0]);
            assert(n[0] != "def"@[0]);
            assert(n[0] != "method"@[0]);
            assert(n[0] != "struct"@[0]);
            assert(n[0] != "class"@[0]);
            assert(n[0] != "enum"@[0]);
            assert(n[0] != "trait"@[0]);
            assert(n[0] != "interface"@[0]);
            assert(n[0] != "constant"@[0]);
            assert(n[0] != "const"@[0]);
        },
        SymbolKind::TypeAlias => {
            assert(n[0] != "function"@[0]);
            assert(n[0] != "fn"@[0]);
            assert(n[0] != "func"@[0]);
            assert(n[0] != "def"@[0]);
            assert(n[0] != "method"@[0]);
            assert(n[0] != "struct"@[0]);
            assert(n[0] != "class"@[0]);
            assert(n[0] != "enum"@[0]);
            assert(n[1] != "trait"@[1]);
            assert(n[0] != "interface"@[0]);
            assert(n[0] != "constant"@[0]);
            assert(n[0] != "const"@[0]);
            assert(n[0] != "variable"@[0]);
            assert(n[0] != "var"@[0]);
        },
        SymbolKind::Module => {
            assert(n[0] != "function"@[0]);
            assert(n[0] != "fn"@[0]);
            assert(n[0] != "func"@[0]);
            assert(n[0] != "def"@[0]);
            assert(n[1] != "method"@[1]);
            assert(n[0] != "struct"@[0]);
            assert(n[0] != "class"@[0]);
            assert(n[0] != "enum"@[0]);
            assert(n[0] != "trait"@[0]);
            assert(n[0] != "interface"@[0]);
            assert(n[0] != "constant"@[0]);
            assert(n[0] != "const"@[0]);
            assert(n[0] != "variable"@[0]);
            assert(n[0] != "var"@[0]);
            assert(n[0] != "type_alias"@[0]);
            assert(n[0] != "type"@[0]);
        },
        SymbolKind::Import => {
            assert(n[0] != "function"@[0]);
            assert(n[0] != "fn"@[0]);
            assert(n[0] != "func"@[0]);
            assert(n[0] != "def"@[0]);
            assert(n[0] != "method"@[0]);
            assert(n[0] != "struct"@[0]);
            assert(n[0] != "class"@[0]);
            assert(n[0] != "enum"@[0]);
            assert(n[0] != "trait"@[0]);
            assert(n[1] != "interface"@[1]);
            assert(n[0] != "constant"@[0]);
            assert(n[0] != "const"@[0]);
            assert(n[0] != "variable"@[0]);
            assert(n[0] != "var"@[0]);
            assert(n[0] != "type_alias"@[0]);
            assert(n[0] != "type"@[0]);
            assert(n[0] != "module"@[0]);
            assert(n[0] != "mod"@[0]);
        },
    }
}

/// A symbol definition extracted from source code.
#[derive(Debug, Clone)]
pub struct SymbolRecord {
    pub repo: String,
    pub ref_name: String,
    pub commit: Option<String>,
    pub path: String,
    pub language: String,
    pub symbol_id: String,
    pub symbol_stable_id: String,
    pub name: String,
    pub qualified_name: String,
    pub kind: SymbolKind,
    pub signature: Option<String>,
    pub line_start: u32,
    pub line_end: u32,
    pub parent_symbol_id: Option<String>,
    pub visibility: Option<String>,
    pub content: Option<String>,
}

/// A code snippet (function body, class body) for full-text search.
#[derive(Debug, Clone)]
pub struct SnippetRecord {
    pub repo: String,
    pub ref_name: String,
    pub commit: Option<String>,
    pub path: String,
    pub language: String,
    pub chunk_type: String,
    pub imports: Option<String>,
    pub line_start: u32,
    pub line_end: u32,
    pub content: String,
}

/// A source file record.
#[derive(Debug, Clone)]
pub struct FileRecord {
    pub repo: String,
    pub ref_name: String,
    pub commit: Option<String>,
    pub path: String,
    pub filename: String,
    pub language: String,
    pub content_hash: String,
    pub size_bytes: u64,
    pub updated_at: String,
    pub content_head: Option<String>,
}

/// A directed relationship edge between two symbols.
#[derive(Debug, Clone, PartialEq, Eq)]
pub struct SymbolEdge {
    pub repo: String,
    pub ref_name: String,
    pub from_symbol_id: String,
    pub to_symbol_id: String,
    pub edge_type: String,
    pub confidence: String,
}

/// A call edge extracted from source code.
///
/// `to_symbol_id` is `None` when the callee cannot be resolved to an indexed symbol.
/// In that case `to_name` carries the best-effort callee text from the call site.
#[derive(Debug, Clone, PartialEq, Eq)]
pub struct CallEdge {
    pub repo: String,
    pub ref_name: String,
    pub from_symbol_id: String,
    pub to_symbol_id: Option<String>,
    pub to_name: Option<String>,
    pub edge_type: String,
    pub confidence: String,
    pub source_file: String,
    pub source_line: u32,
}

/// Detail level for response verbosity control.
#[derive(Debug, Clone, Copy, PartialEq, Eq, Structural)]
pub enum DetailLevel {
    /// Minimal: path, line_start, line_end, kind, name.
    Location,
    /// Default: adds qualified_name, signature, language, visibility.
    Signature,
    /// Full: adds body_preview, parent, related_symbols.
    Context,
}

impl Default for DetailLevel {
    fn default() -> (r: Self)
        ensures
            r == DetailLevel::Signature,
    {
        DetailLevel::Signature
    }
}

/// Freshness policy for pre-query staleness checks.
#[derive(Debug, Clone, Copy, PartialEq, Eq, Structural)]
pub enum FreshnessPolicy {
    /// Block queries when index is stale.
    Strict,
    /// Return results with stale indicator; trigger async sync.
    Balanced,
    /// Always return results immediately; no sync triggered.
    BestEffort,
}

impl Default for FreshnessPolicy {
    fn default() -> (r: Self)
        ensures
            r == FreshnessPolicy::Balanced,
    {
        FreshnessPolicy::Balanced
    }
}

/// Ranking explainability payload level.
#[derive(Debug, Clone, Copy, PartialEq, Eq, Structural)]
pub enum RankingExplainLevel {
    /// Omit ranking reasons from metadata.
    Off,
    /// Include compact normalized factors for agent routing.
    Basic,
    /// Include full per-result scoring breakdown.
    Full,
}

impl Default for RankingExplainLevel {
    fn default() -> (r: Self)
        ensures
            r == RankingExplainLevel::Off,
    {
        RankingExplainLevel::Off
    }
}

/// Semantic retrieval execution mode.
#[derive(Debug, Clone, Copy, PartialEq, Eq, Structural)]
pub enum SemanticMode {
    /// Disable semantic retrieval.
    Off,
    /// Keep lexical retrieval and optional rerank only (no vector branch);
    /// configured as `shadow`.
    RerankOnly,
    /// Enable semantic/hybrid retrieval path for natural-language intent;
    /// configured as `on`.
    Hybrid,
}

impl Default for SemanticMode {
    fn default() -> (r: Self)
        ensures
            r == SemanticMode::Off,
    {
        SemanticMode::Off
    }
}

/// Query intent classification.
#[derive(Debug, Clone, Copy, PartialEq, Eq, Structural)]
pub enum QueryIntent {
    Symbol,
    Path,
    Error,
    NaturalLanguage,
}

/// Ref scope for queries.
#[derive(Debug, Clone)]
pub struct RefScope {
    pub ref_name: String,
    pub is_explicit: bool,
}

impl RefScope {
    /// The implicit scope of the live working tree.
    pub fn live() -> (r: Self)
        ensures
            r.ref_name@ == "live"@,
            !r.is_explicit,
    {
        RefScope { ref_name: string_of(&chars_of(REF_LIVE)), is_explicit: false }
    }

    /// A scope the caller named.
    pub fn explicit(ref_name: &str) -> (r: Self)
        ensures
            r.ref_name@ == ref_name@,
            r.is_explicit,
    {
        RefScope { ref_name: string_of(&chars_of(ref_name)), is_explicit: true }
    }
}

/// Canonical merge key for base/overlay reconciliation paths.
#[derive(Debug, Clone, PartialEq, Eq, Hash, PartialOrd, Ord)]
pub struct OverlayMergeKey {
    pub repo: String,
    pub ref_name: String,
    pub path: String,
}

impl OverlayMergeKey {
    pub open spec fn fields(self) -> (Seq<char>, Seq<char>, Seq<char>) {
        (self.repo@, self.ref_name@, self.path@)
    }

    pub fn new(repo: &str, ref_name: &str, path: &str) -> (r: Self)
        ensures
            r.fields() == (repo@, ref_name@, path@),
    {
        OverlayMergeKey {
            repo: string_of(&chars_of(repo)),
            ref_name: string_of(&chars_of(ref_name)),
            path: string_of(&chars_of(path)),
        }
    }

    /// Key of a symbol: `(repo, "symbol", "<stable_id>:<kind>")`.
    pub fn symbol(repo: &str, symbol_stable_id: &str, kind: &str) -> (r: Self)
        ensures
            r.fields() == (repo@, "symbol"@, symbol_stable_id@ + ":"@ + kind@),
    {
        let a = concat(&chars_of(symbol_stable_id), &chars_of(":"));
        let p = concat(&a, &chars_of(kind));
        OverlayMergeKey {
            repo: string_of(&chars_of(repo)),
            ref_name: string_of(&chars_of("symbol")),
            path: string_of(&p),
        }
    }

    /// Key of a snippet: `(repo, "snippet", "<path>:<chunk>:<start>:<end>")`.
    pub fn snippet(repo: &str, path: &str, chunk_type: &str, line_start: u32, line_end: u32) -> (r:
        Self)
        ensures
            r.fields() == (
                repo@,
                "snippet"@,
                path@ + ":"@ + chunk_type@ + ":"@ + decimal(line_start as nat) + ":"@ + decimal(
                    line_end as nat,
                ),
            ),
    {
        let colon = chars_of(":");
        let a = concat(&chars_of(path), &colon);
        let b = concat(&a, &chars_of(chunk_type));
        let c = concat(&b, &colon);
        let d = concat(&c, &decimal_v(line_start as u64));
        let e = concat(&d, &colon);
        let f = concat(&e, &decimal_v(line_end as u64));
        OverlayMergeKey {
            repo: string_of(&chars_of(repo)),
            ref_name: string_of(&chars_of("snippet")),
            path: string_of(&f),
        }
    }

    /// Key of a file: `(repo, "file", path)`.
    pub fn file(repo: &str, path: &str) -> (r: Self)
        ensures
            r.fields() == (repo@, "file"@, path@),
    {
        Self::new(repo, "file", path)
    }

    /// Key of any other result: `(repo, result_type, "<path>:<start>:<end>")`.
    pub fn fallback(repo: &str, result_type: &str, path: &str, line_start: u32, line_end: u32) -> (r:
        Self)
        ensures
            r.fields() == (
                repo@,
                result_type@,
                path@ + ":"@ + decimal(line_start as nat) + ":"@ + decimal(line_end as nat),
            ),
    {
        let colon = chars_of(":");
        let a = concat(&chars_of(path), &colon);
        let b = concat(&a, &decimal_v(line_start as u64));
        let c = concat(&b, &colon);
        let d = concat(&c, &decimal_v(line_end as u64));
        OverlayMergeKey {
            repo: string_of(&chars_of(repo)),
            ref_name: string_of(&chars_of(result_type)),
            path: string_of(&d),
        }
    }
}

/// Origin of a VCS-mode query result.
#[derive(Debug, Clone, Copy, PartialEq, Eq, Structural)]
pub enum SourceLayer {
    Base,
    Overlay,
}

/// Freshness status of the index.
#[derive(Debug, Clone, Copy, PartialEq, Eq, Structural)]
pub enum FreshnessStatus {
    Fresh,
    Stale,
    Syncing,
}

/// Indexing status.
#[derive(Debug, Clone, Copy, PartialEq, Eq, Structural)]
pub enum IndexingStatus {
    NotIndexed,
    Indexing,
    Ready,
    Failed,
}

/// Result completeness.
#[derive(Debug, Clone, Copy, PartialEq, Eq, Structural)]
pub enum ResultCompleteness {
    Complete,
    Partial,
    Truncated,
}

/// Schema compatibility status.
#[derive(Debug, Clone, Copy, PartialEq, Eq, Structural)]
pub enum SchemaStatus {
    Compatible,
    NotIndexed,
    ReindexRequired,
    CorruptManifest,
}

/// Index job status.
#[derive(Debug, Clone, Copy, PartialEq, Eq, Structural)]
pub enum JobStatus {
    Queued,
    Running,
    Validating,
    Published,
    Failed,
    RolledBack,
    Interrupted,
}

pub open spec fn job_status_name(s: JobStatus) -> Seq<char> {
    match s {
        JobStatus::Queued => "queued"@,
        JobStatus::Running => "running"@,
        JobStatus::Validating => "validating"@,
        JobStatus::Published => "published"@,
        JobStatus::Failed => "failed"@,
        JobStatus::RolledBack => "rolled_back"@,
        JobStatus::Interrupted => "interrupted"@,
    }
}

impl JobStatus {
    pub fn as_str(&self) -> (r: &'static str)
        ensures
            r@ == job_status_name(*self),
    {
        match self {
            JobStatus::Queued => "queued",
            JobStatus::Running => "running",
            JobStatus::Validating => "validating",
            JobStatus::Published => "published",
            JobStatus::Failed => "failed",
            JobStatus::RolledBack => "rolled_back",
            JobStatus::Interrupted => "interrupted",
        }
    }
}

/// Configuration for multi-workspace auto-discovery.
#[derive(Debug, Clone)]
pub struct WorkspaceConfig {
    pub auto_workspace: bool,
    pub allowed_roots: AllowedRoots,
    pub max_auto_workspaces: usize,
}

impl Default for WorkspaceConfig {
    fn default() -> (r: Self)
        ensures
            !r.auto_workspace,
            r.allowed_roots@.len() == 0,
            r.max_auto_workspaces == 10,
    {
        WorkspaceConfig {
            auto_workspace: false,
            allowed_roots: AllowedRoots::new(Vec::new()),
            max_auto_workspaces: 10,
        }
    }
}

/// Allowed root path prefixes for workspace validation (canonical path text).
#[derive(Debug, Clone)]
pub struct AllowedRoots {
    roots: Vec<String>,
}

impl Default for AllowedRoots {
    fn default() -> (r: Self)
        ensures
            r@.len() == 0,
    {
        AllowedRoots { roots: Vec::new() }
    }
}

impl View for AllowedRoots {
    type V = Seq<Seq<char>>;

    closed spec fn view(&self) -> Seq<Seq<char>> {
        self.roots@.map_values(|r: String| r@)
    }
}

/// `path` lies under at least one of `roots` (component-wise prefix).
pub open spec fn under_some_root(roots: Seq<Seq<char>>, path: Seq<char>) -> bool {
    exists|i: int| 0 <= i < roots.len() && path_starts_with(path, #[trigger] roots[i])
}

impl AllowedRoots {
    pub fn new(roots: Vec<String>) -> (r: Self)
        ensures
            r@ == roots@.map_values(|x: String| x@),
    {
        AllowedRoots { roots }
    }

    /// Check if the given path falls under at least one allowed root prefix.
    /// Both `path` and the stored roots are assumed to be already canonicalized.
    pub fn contains(&self, path: &str) -> (r: bool)
        ensures
            r == under_some_root(self@, path@),
    {
        let p = chars_of(path);
        let mut i: usize = 0;
        while i < self.roots.len()
            invariant
                i <= self.roots.len(),
                p@ == path@,
                forall|k: int| 0 <= k < i ==> !path_starts_with(path@, #[trigger] self@[k]),
            decreases self.roots.len() - i,
        {
            let root = chars_of(self.roots[i].as_str());
            assert(self@[i as int] == self.roots@[i as int]@);
            if path_starts_with_v(&p, &root) {
                return true;
            }
            i = i + 1;
        }
        false
    }

    pub fn is_empty(&self) -> (r: bool)
        ensures
            r == (self@.len() == 0),
    {
        self.roots.len() == 0
    }
}

} // verus!
