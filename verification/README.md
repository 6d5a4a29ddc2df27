# codecompass

The verified core of a code search and navigation engine for AI coding
assistants. Its behaviour is stated as Verus contracts and proved.

## Layout

- `src/` — the library, verified by Verus:
  - `text`, `paths`, `sorted_text` — string and path text operations with their
    specifications (`str::trim`, `str::lines`, `Path::components`,
    `Path::parent`, `Path::join`, ...);
  - `types`, `errors`, `constants`, `tokens`, `ids` — domain types, the
    protocol error registry, token estimates and BLAKE3-based ids;
  - `config`, `config_tree` — configuration defaults, normalisation,
    environment overrides, and the parse (through `toml`) and deep merge of
    configuration layers;
  - `languages` — symbol extraction from syntax trees and import extraction
    from source text (Rust, Python, Go);
  - `overlay`, `indexing`, `index_docs`, `project_setup` — ref overlays and
    staging paths, the decisions of an indexing run, the fields of search
    index documents, and setting up or importing a project;
  - `protocol`, `tool_calls`, `server`, `workspace_router`, `vcs_adapter` —
    the MCP server's metadata, validation, error mapping, result
    de-duplication, response budgets, routing and workspace resolution;
  - `semantic_advice` — the per-language file counts put to the semantic
    profile advisor.
- `app/` — the edges: configuration files and environment, file system,
  `git`, tree-sitter trees, job ids, JSON, and the MCP tool definitions.
- `tests/` — tests of the library.
