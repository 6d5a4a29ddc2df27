//! Import records shared by the per-language import extractors.

use vstd::prelude::*;
use crate::text::{chars_of, concat, string_of};

verus! {

/// An import statement found in a source file, before it is resolved against
/// the symbol table.
#[derive(Debug, Clone, PartialEq, Eq)]
pub struct RawImport {
    /// `file::<path of the importing file>`.
    pub source_qualified_name: String,
    /// The imported module or item, as written (after language-specific
    /// normalisation).
    pub target_qualified_name: String,
    /// The local name the import binds.
    pub target_name: String,
    /// 1-based line of the statement.
    pub import_line: u32,
}

/// The mathematical content of a [`RawImport`].
pub struct ImportSpec {
    pub source_qualified_name: Seq<char>,
    pub target_qualified_name: Seq<char>,
    pub target_name: Seq<char>,
    pub import_line: u32,
}

impl View for RawImport {
    type V = ImportSpec;

    open spec fn view(&self) -> ImportSpec {
        ImportSpec {
            source_qualified_name: self.source_qualified_name@,
            target_qualified_name: self.target_qualified_name@,
            target_name: self.target_name@,
            import_line: self.import_line,
        }
    }
}

pub open spec fn import_views(v: Seq<RawImport>) -> Seq<ImportSpec> {
    v.map_values(|x: RawImport| x@)
}

/// `file::<path>`, the pseudo symbol that owns a file's imports.
pub open spec fn file_source_name(path: Seq<char>) -> Seq<char> {
    "file::"@ + path
}

/// Line number of the line at 0-based index `idx`, as the extractors record it.
pub open spec fn line_no(idx: int) -> u32 {
    (idx + 1) as u32
}

/// The import record for one parsed statement.
pub open spec fn import_spec(
    path: Seq<char>,
    target: Seq<char>,
    name: Seq<char>,
    line: u32,
) -> ImportSpec {
    ImportSpec {
        source_qualified_name: file_source_name(path),
        target_qualified_name: target,
        target_name: name,
        import_line: line,
    }
}

/// Builds the record for one parsed import.
pub fn make_import(path: &Vec<char>, target: &Vec<char>, name: &Vec<char>, line: u32) -> (r:
    RawImport)
    ensures
        r@ == import_spec(path@, target@, name@, line),
{
    let prefix = chars_of("file::");
    let source = concat(&prefix, path);
    RawImport {
        source_qualified_name: string_of(&source),
        target_qualified_name: string_of(target),
        target_name: string_of(name),
        import_line: line,
    }
}

} // verus!
