//! The search index documents of symbols, snippets and files: which field
//! holds what.

use vstd::prelude::*;
use crate::types::{kind_name, FileRecord, SnippetRecord, SymbolRecord};
use crate::text::push_text;

verus! {

/// A field value of an index document.
#[derive(Debug)]
pub enum FieldValue {
    Text(String),
    Number(u64),
}

pub ghost enum FieldValueView {
    Text(Seq<char>),
    Number(u64),
}

/// One field of an index document.
#[derive(Debug)]
pub struct DocField {
    pub name: &'static str,
    pub value: FieldValue,
}

pub open spec fn field_view(f: DocField) -> (Seq<char>, FieldValueView) {
    (
        f.name@,
        match f.value {
            FieldValue::Text(s) => FieldValueView::Text(s@),
            FieldValue::Number(n) => FieldValueView::Number(n),
        },
    )
}

pub open spec fn doc_view(fields: Seq<DocField>) -> Seq<(Seq<char>, FieldValueView)> {
    fields.map_values(|f: DocField| field_view(f))
}

/// The key that ties a document to its file: `repo|ref|path`.
pub open spec fn file_key_spec(repo: Seq<char>, ref_name: Seq<char>, path: Seq<char>) -> Seq<char> {
    repo + "|"@ + ref_name + "|"@ + path
}

proof fn lemma_split_at_bar(a1: Seq<char>, b1: Seq<char>, a2: Seq<char>, b2: Seq<char>)
    requires
        !a1.contains('|'),
        !a2.contains('|'),
        a1 + "|"@ + b1 == a2 + "|"@ + b2,
    ensures
        a1 == a2,
        b1 == b2,
{
    reveal_strlit("|");
    let k1 = a1 + "|"@ + b1;
    let k2 = a2 + "|"@ + b2;
    assert(k1[a1.len() as int] == '|');
    assert(k2[a2.len() as int] == '|');
    if a1.len() < a2.len() {
        assert(k2[a1.len() as int] == a2[a1.len() as int]);
        assert(a2.contains(a2[a1.len() as int]));
        assert(false);
    }
    if a2.len() < a1.len() {
        assert(k1[a2.len() as int] == a1[a2.len() as int]);
        assert(a1.contains(a1[a2.len() as int]));
        assert(false);
    }
    assert forall|i: int| 0 <= i < a1.len() implies a1[i] == a2[i] by {
        assert(k1[i] == a1[i]);
        assert(k2[i] == a2[i]);
    }
    assert(a1 =~= a2);
    assert(k1.len() == k2.len());
    assert(b1.len() == b2.len());
    assert forall|i: int| 0 <= i < b1.len() implies b1[i] == b2[i] by {
        assert(k1[a1.len() + 1 + i] == b1[i]);
        assert(k2[a2.len() + 1 + i] == b2[i]);
    }
    assert(b1 =~= b2);
}

/// Ref isolation of documents: when neither the repository nor the ref
/// contains `|`, documents of different repositories, refs or paths never
/// share a file key, so deleting by one file's key leaves every other
/// file's documents alone.
pub proof fn lemma_file_key_separates_files(
    repo1: Seq<char>,
    ref1: Seq<char>,
    path1: Seq<char>,
    repo2: Seq<char>,
    ref2: Seq<char>,
    path2: Seq<char>,
)
    requires
        !repo1.contains('|'),
        !repo2.contains('|'),
        !ref1.contains('|'),
        !ref2.contains('|'),
        file_key_spec(repo1, ref1, path1) == file_key_spec(repo2, ref2, path2),
    ensures
        repo1 == repo2,
        ref1 == ref2,
        path1 == path2,
{
    assert(file_key_spec(repo1, ref1, path1) =~= repo1 + "|"@ + (ref1 + "|"@ + path1));
    assert(file_key_spec(repo2, ref2, path2) =~= repo2 + "|"@ + (ref2 + "|"@ + path2));
    lemma_split_at_bar(repo1, ref1 + "|"@ + path1, repo2, ref2 + "|"@ + path2);
    lemma_split_at_bar(ref1, path1, ref2, path2);
}

pub fn file_key(repo: &str, ref_name: &str, path: &str) -> (r: String)
    ensures
        r@ == file_key_spec(repo@, ref_name@, path@),
{
    let mut k = repo.to_owned();
    push_text(&mut k, "|");
    push_text(&mut k, ref_name);
    push_text(&mut k, "|");
    push_text(&mut k, path);
    k
}

pub open spec fn text_or_empty(o: Option<String>) -> Seq<char> {
    match o {
        Some(s) => s@,
        None => Seq::empty(),
    }
}

fn text_field(name: &'static str, value: &str) -> (r: DocField)
    ensures
        field_view(r) == (name@, FieldValueView::Text(value@)),
{
    DocField { name, value: FieldValue::Text(value.to_owned()) }
}

fn opt_text_field(name: &'static str, value: &Option<String>) -> (r: DocField)
    ensures
        field_view(r) == (name@, FieldValueView::Text(text_or_empty(*value))),
{
    match value {
        Some(v) => {
            let r = text_field(name, v.as_str());
            assert(text_or_empty(*value) == v@);
            r
        },
        None => {
            let r = text_field(name, "");
            proof {
                reveal_strlit("");
            }
            assert(""@ =~= text_or_empty(*value));
            r
        },
    }
}

fn number_field(name: &'static str, value: u64) -> (r: DocField)
    ensures
        field_view(r) == (name@, FieldValueView::Number(value)),
{
    DocField { name, value: FieldValue::Number(value) }
}

/// The document of a symbol.
pub open spec fn symbol_doc_spec(s: SymbolRecord) -> Seq<(Seq<char>, FieldValueView)> {
    seq![
        ("file_key"@, FieldValueView::Text(file_key_spec(s.repo@, s.ref_name@, s.path@))),
        ("repo"@, FieldValueView::Text(s.repo@)),
        ("ref"@, FieldValueView::Text(s.ref_name@)),
        ("commit"@, FieldValueView::Text(text_or_empty(s.commit))),
        ("symbol_exact"@, FieldValueView::Text(s.name@)),
        ("kind"@, FieldValueView::Text(kind_name(s.kind))),
        ("language"@, FieldValueView::Text(s.language@)),
        ("visibility"@, FieldValueView::Text(text_or_empty(s.visibility))),
        ("symbol_id"@, FieldValueView::Text(s.symbol_id@)),
        ("symbol_stable_id"@, FieldValueView::Text(s.symbol_stable_id@)),
        ("path"@, FieldValueView::Text(s.path@)),
        ("qualified_name"@, FieldValueView::Text(s.qualified_name@)),
        ("signature"@, FieldValueView::Text(text_or_empty(s.signature))),
        ("content"@, FieldValueView::Text(text_or_empty(s.content))),
        ("line_start"@, FieldValueView::Number(s.line_start as u64)),
        ("line_end"@, FieldValueView::Number(s.line_end as u64)),
    ]
}

pub fn symbol_document(sym: &SymbolRecord) -> (r: Vec<DocField>)
    ensures
        doc_view(r@) == symbol_doc_spec(*sym),
{
    let key = file_key(sym.repo.as_str(), sym.ref_name.as_str(), sym.path.as_str());
    let r = vec![
        text_field("file_key", key.as_str()),
        text_field("repo", sym.repo.as_str()),
        text_field("ref", sym.ref_name.as_str()),
        opt_text_field("commit", &sym.commit),
        text_field("symbol_exact", sym.name.as_str()),
        text_field("kind", sym.kind.as_str()),
        text_field("language", sym.language.as_str()),
        opt_text_field("visibility", &sym.visibility),
        text_field("symbol_id", sym.symbol_id.as_str()),
        text_field("symbol_stable_id", sym.symbol_stable_id.as_str()),
        text_field("path", sym.path.as_str()),
        text_field("qualified_name", sym.qualified_name.as_str()),
        opt_text_field("signature", &sym.signature),
        opt_text_field("content", &sym.content),
        number_field("line_start", sym.line_start as u64),
        number_field("line_end", sym.line_end as u64),
    ];
    assert(doc_view(r@) =~= symbol_doc_spec(*sym));
    r
}

/// The document of a snippet.
pub open spec fn snippet_doc_spec(s: SnippetRecord) -> Seq<(Seq<char>, FieldValueView)> {
    seq![
        ("file_key"@, FieldValueView::Text(file_key_spec(s.repo@, s.ref_name@, s.path@))),
        ("repo"@, FieldValueView::Text(s.repo@)),
        ("ref"@, FieldValueView::Text(s.ref_name@)),
        ("commit"@, FieldValueView::Text(text_or_empty(s.commit))),
        ("path"@, FieldValueView::Text(s.path@)),
        ("language"@, FieldValueView::Text(s.language@)),
        ("chunk_type"@, FieldValueView::Text(s.chunk_type@)),
        ("imports"@, FieldValueView::Text(text_or_empty(s.imports))),
        ("content"@, FieldValueView::Text(s.content@)),
        ("line_start"@, FieldValueView::Number(s.line_start as u64)),
        ("line_end"@, FieldValueView::Number(s.line_end as u64)),
    ]
}

pub fn snippet_document(snip: &SnippetRecord) -> (r: Vec<DocField>)
    ensures
        doc_view(r@) == snippet_doc_spec(*snip),
{
    let key = file_key(snip.repo.as_str(), snip.ref_name.as_str(), snip.path.as_str());
    let r = vec![
        text_field("file_key", key.as_str()),
        text_field("repo", snip.repo.as_str()),
        text_field("ref", snip.ref_name.as_str()),
        opt_text_field("commit", &snip.commit),
        text_field("path", snip.path.as_str()),
        text_field("language", snip.language.as_str()),
        text_field("chunk_type", snip.chunk_type.as_str()),
        opt_text_field("imports", &snip.imports),
        text_field("content", snip.content.as_str()),
        number_field("line_start", snip.line_start as u64),
        number_field("line_end", snip.line_end as u64),
    ];
    assert(doc_view(r@) =~= snippet_doc_spec(*snip));
    r
}

/// The document of a file.
pub open spec fn file_doc_spec(f: FileRecord) -> Seq<(Seq<char>, FieldValueView)> {
    seq![
        ("file_key"@, FieldValueView::Text(file_key_spec(f.repo@, f.ref_name@, f.path@))),
        ("repo"@, FieldValueView::Text(f.repo@)),
        ("ref"@, FieldValueView::Text(f.ref_name@)),
        ("commit"@, FieldValueView::Text(text_or_empty(f.commit))),
        ("path"@, FieldValueView::Text(f.path@)),
        ("filename"@, FieldValueView::Text(f.filename@)),
        ("language"@, FieldValueView::Text(f.language@)),
        ("updated_at"@, FieldValueView::Text(f.updated_at@)),
        ("content_head"@, FieldValueView::Text(text_or_empty(f.content_head))),
    ]
}

pub fn file_document(file: &FileRecord) -> (r: Vec<DocField>)
    ensures
        doc_view(r@) == file_doc_spec(*file),
{
    let key = file_key(file.repo.as_str(), file.ref_name.as_str(), file.path.as_str());
    let r = vec![
        text_field("file_key", key.as_str()),
        text_field("repo", file.repo.as_str()),
        text_field("ref", file.ref_name.as_str()),
        opt_text_field("commit", &file.commit),
        text_field("path", file.path.as_str()),
        text_field("filename", file.filename.as_str()),
        text_field("language", file.language.as_str()),
        text_field("updated_at", file.updated_at.as_str()),
        opt_text_field("content_head", &file.content_head),
    ];
    assert(doc_view(r@) =~= file_doc_spec(*file));
    r
}

} // verus!
