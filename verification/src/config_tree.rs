//! Layered configuration documents: each layer's TOML text is parsed into a
//! tree of tables whose leaves (strings, numbers, booleans, arrays, dates)
//! are held beside it under ids. Layers are deep-merged, later layers
//! winning, and a legacy `[query]` table fills in missing `[search]`
//! settings.

use vstd::prelude::*;
use crate::errors::ConfigError;
use crate::text::str_eq;

verus! {

/// A configuration value: a table of keyed entries, or a leaf value held by
/// the caller under an id.
#[derive(Debug)]
pub enum TomlNode {
    Table(Vec<TomlEntry>),
    Leaf(u64),
}

/// One `key = value` entry of a table.
#[derive(Debug)]
pub struct TomlEntry {
    pub key: String,
    pub value: TomlNode,
}

/// The value a configuration tree denotes.
pub ghost enum TomlModel {
    Table(Seq<ModelEntry>),
    Leaf(u64),
}

pub ghost struct ModelEntry {
    pub key: Seq<char>,
    pub value: TomlModel,
}

pub open spec fn node_model(n: TomlNode) -> TomlModel
    decreases n, 1int, 0int,
{
    match n {
        TomlNode::Leaf(id) => TomlModel::Leaf(id),
        TomlNode::Table(es) => {
            proof {
                assert(decreases_to!(n => es@));
            }
            TomlModel::Table(entries_model(es@, es@.len() as int))
        },
    }
}

/// Models of the first `k` entries.
pub open spec fn entries_model(es: Seq<TomlEntry>, k: int) -> Seq<ModelEntry>
    decreases es, 0int, k,
{
    if k <= 0 || k > es.len() {
        Seq::empty()
    } else {
        proof {
            assert(decreases_to!(es => es[k - 1]));
            assert(decreases_to!(es[k - 1] => es[k - 1].value));
        }
        entries_model(es, k - 1).push(ModelEntry { key: es[k - 1].key@, value: node_model(es[k - 1].value) })
    }
}

/// Position of the first entry with `key`, from index `i` on.
pub open spec fn find_key_from(entries: Seq<ModelEntry>, key: Seq<char>, i: int) -> Option<int>
    decreases entries.len() - i,
{
    if i < 0 || i >= entries.len() {
        None
    } else if entries[i].key == key {
        Some(i)
    } else {
        find_key_from(entries, key, i + 1)
    }
}

pub open spec fn find_key(entries: Seq<ModelEntry>, key: Seq<char>) -> Option<int> {
    find_key_from(entries, key, 0)
}

pub proof fn lemma_find_key_from(entries: Seq<ModelEntry>, key: Seq<char>, i: int)
    requires
        0 <= i,
    ensures
        find_key_from(entries, key, i) matches Some(j) ==> i <= j < entries.len() && entries[j].key
            == key && forall|m: int| i <= m < j ==> entries[m].key != key,
        find_key_from(entries, key, i) is None ==> forall|m: int|
            i <= m < entries.len() ==> entries[m].key != key,
    decreases entries.len() - i,
{
    if i < entries.len() && entries[i].key != key {
        lemma_find_key_from(entries, key, i + 1);
    }
}

/// Deep merge of `overlay` into `base`: when both are tables, each overlay
/// entry merges into the base entry with its key (recursively when both are
/// tables, replacing it otherwise) or is appended; any other overlay leaves
/// the base unchanged.
pub open spec fn merge_model(base: TomlModel, overlay: TomlModel) -> TomlModel
    decreases overlay, 1int, 0int,
{
    match (base, overlay) {
        (TomlModel::Table(be), TomlModel::Table(oe)) => TomlModel::Table(
            merge_model_entries(be, oe, oe.len() as int),
        ),
        _ => base,
    }
}

/// Base entries after merging in the first `k` overlay entries.
pub open spec fn merge_model_entries(be: Seq<ModelEntry>, oe: Seq<ModelEntry>, k: int) -> Seq<
    ModelEntry,
>
    decreases oe, 0int, k,
{
    if k <= 0 || k > oe.len() {
        be
    } else {
        let acc = merge_model_entries(be, oe, k - 1);
        let e = oe[k - 1];
        match find_key(acc, e.key) {
            Some(i) => {
                proof {
                    assert(decreases_to!(oe => oe[k - 1]));
                    assert(decreases_to!(oe[k - 1] => oe[k - 1].value));
                }
                let merged = if acc[i].value is Table && e.value is Table {
                    merge_model(acc[i].value, e.value)
                } else {
                    e.value
                };
                acc.update(i, ModelEntry { key: acc[i].key, value: merged })
            },
            None => acc.push(e),
        }
    }
}

/// What `entries_model` holds: one model entry per entry, in order.
pub proof fn lemma_entries_model(es: Seq<TomlEntry>, k: int)
    requires
        0 <= k <= es.len(),
    ensures
        entries_model(es, k).len() == k,
        forall|i: int|
            0 <= i < k ==> #[trigger] entries_model(es, k)[i] == (ModelEntry {
                key: es[i].key@,
                value: node_model(es[i].value),
            }),
    decreases k,
{
    if k > 0 {
        lemma_entries_model(es, k - 1);
    }
}

pub open spec fn table_model(es: Seq<TomlEntry>) -> Seq<ModelEntry> {
    entries_model(es, es.len() as int)
}

/// Two entry lists with entry-wise equal models have equal models.
proof fn lemma_entries_model_ext(a: Seq<TomlEntry>, b: Seq<ModelEntry>)
    requires
        a.len() == b.len(),
        forall|i: int|
            0 <= i < a.len() ==> b[i] == (ModelEntry { key: a[i].key@, value: node_model(a[i].value) }),
    ensures
        table_model(a) == b,
{
    lemma_entries_model(a, a.len() as int);
    assert(table_model(a) =~= b);
}

proof fn lemma_entries_model_prefix(a: Seq<TomlEntry>, b: Seq<TomlEntry>, k: int)
    requires
        0 <= k <= a.len(),
        k <= b.len(),
        forall|m: int| 0 <= m < k ==> a[m] == b[m],
    ensures
        entries_model(a, k) == entries_model(b, k),
    decreases k,
{
    if k > 0 {
        lemma_entries_model_prefix(a, b, k - 1);
    }
}

/// A copy of a configuration tree.
pub fn copy_node(n: &TomlNode) -> (r: TomlNode)
    ensures
        node_model(r) == node_model(*n),
    decreases n,
{
    match n {
        TomlNode::Leaf(id) => TomlNode::Leaf(*id),
        TomlNode::Table(es) => {
            let mut out: Vec<TomlEntry> = Vec::new();
            let mut i: usize = 0;
            while i < es.len()
                invariant
                    i <= es@.len(),
                    *n == TomlNode::Table(*es),
                    out@.len() == i,
                    entries_model(out@, i as int) == entries_model(es@, i as int),
                decreases es.len() - i,
            {
                assert((*n)->Table_0 == *es);
                assert(decreases_to!(*n => (*n)->Table_0));
                assert(decreases_to!(*es => es@));
                assert(decreases_to!(es@ => es@[i as int]));
                assert(decreases_to!(es@[i as int] => es@[i as int].value));
                assert(decreases_to!(*n => es@[i as int].value));
                let v = copy_node(&es[i].value);
                let ghost before = out@;
                out.push(TomlEntry { key: es[i].key.clone(), value: v });
                proof {
                    lemma_entries_model_prefix(out@, before, i as int);
                }
                i = i + 1;
            }
            TomlNode::Table(out)
        },
    }
}

fn find_entry(entries: &Vec<TomlEntry>, key: &str) -> (r: Option<usize>)
    ensures
        match (r, find_key(table_model(entries@), key@)) {
            (Some(a), Some(b)) => a == b,
            (None, None) => true,
            _ => false,
        },
{
    proof {
        lemma_entries_model(entries@, entries@.len() as int);
    }
    let ghost m = table_model(entries@);
    let mut i: usize = 0;
    while i < entries.len()
        invariant
            i <= entries@.len(),
            m == table_model(entries@),
            m.len() == entries@.len(),
            forall|j: int|
                0 <= j < entries@.len() ==> #[trigger] m[j].key == entries@[j].key@,
            find_key(m, key@) == find_key_from(m, key@, i as int),
        decreases entries.len() - i,
    {
        if str_eq(entries[i].key.as_str(), key) {
            assert(m[i as int].key == key@);
            return Some(i);
        }
        assert(m[i as int].key != key@);
        i = i + 1;
    }
    None
}

fn merge_node_v(base: TomlNode, overlay: &TomlNode) -> (r: TomlNode)
    ensures
        node_model(r) == merge_model(node_model(base), node_model(*overlay)),
    decreases overlay,
{
    match (base, overlay) {
        (TomlNode::Table(be), TomlNode::Table(oe)) => {
            let ghost be0 = table_model(be@);
            let ghost oem = table_model(oe@);
            proof {
                lemma_entries_model(oe@, oe@.len() as int);
            }
            let mut acc = be;
            let mut k: usize = 0;
            while k < oe.len()
                invariant
                    k <= oe@.len(),
                    *overlay == TomlNode::Table(*oe),
                    oem == table_model(oe@),
                    oem.len() == oe@.len(),
                    forall|j: int|
                        0 <= j < oe@.len() ==> #[trigger] oem[j] == (ModelEntry {
                            key: oe@[j].key@,
                            value: node_model(oe@[j].value),
                        }),
                    table_model(acc@) == merge_model_entries(be0, oem, k as int),
                decreases oe.len() - k,
            {
                let e = &oe[k];
                let ghost am = table_model(acc@);
                proof {
                    lemma_entries_model(acc@, acc@.len() as int);
                }
                proof {
                    lemma_find_key_from(am, oe@[k as int].key@, 0);
                }
                match find_entry(&acc, e.key.as_str()) {
                    Some(i) => {
                        let old = acc.remove(i);
                        let both_tables = match (&old.value, &e.value) {
                            (TomlNode::Table(_), TomlNode::Table(_)) => true,
                            _ => false,
                        };
                        assert(node_model(old.value) is Table == old.value is Table);
                        assert(node_model(e.value) is Table == e.value is Table);
                        let v = if both_tables {
                            assert((*overlay)->Table_0 == *oe);
                            assert(decreases_to!(*overlay => (*overlay)->Table_0));
                            assert(decreases_to!(*oe => oe@));
                            assert(decreases_to!(oe@ => oe@[k as int]));
                            assert(decreases_to!(oe@[k as int] => oe@[k as int].value));
                            assert(decreases_to!(*overlay => oe@[k as int].value));
                            merge_node_v(old.value, &e.value)
                        } else {
                            copy_node(&e.value)
                        };
                        let ghost new_entry = ModelEntry { key: old.key@, value: node_model(v) };
                        acc.insert(i, TomlEntry { key: old.key, value: v });
                        proof {
                            lemma_entries_model_ext(acc@, am.update(i as int, new_entry));
                        }
                    },
                    None => {
                        let v = copy_node(&e.value);
                        let ghost new_entry = ModelEntry { key: e.key@, value: node_model(v) };
                        acc.push(TomlEntry { key: e.key.clone(), value: v });
                        proof {
                            lemma_entries_model_ext(acc@, am.push(new_entry));
                        }
                    },
                }
                k = k + 1;
            }
            TomlNode::Table(acc)
        },
        (b, _) => b,
    }
}

/// Deep-merge `overlay` into `base`; only what `overlay` holds is written.
pub fn merge_toml_values(base: &mut TomlNode, overlay: &TomlNode)
    ensures
        node_model(*final(base)) == merge_model(node_model(*old(base)), node_model(*overlay)),
{
    let mut taken = TomlNode::Leaf(0);
    std::mem::swap(base, &mut taken);
    *base = merge_node_v(taken, overlay);
}

/// Settings a legacy `[query]` table may still hold for `[search]`.
pub open spec fn promoted_key(k: int) -> Seq<char> {
    if k == 0 {
        "default_ref"@
    } else if k == 1 {
        "freshness_policy"@
    } else if k == 2 {
        "ranking_explain_level"@
    } else {
        "max_response_bytes"@
    }
}

/// `search` after copying in the first `k` promoted settings that it lacks
/// and `query` has.
pub open spec fn promote_fill(search: Seq<ModelEntry>, query: Seq<ModelEntry>, k: int) -> Seq<
    ModelEntry,
>
    decreases k,
{
    if k <= 0 {
        search
    } else {
        let acc = promote_fill(search, query, k - 1);
        let key = promoted_key(k - 1);
        match (find_key(acc, key), find_key(query, key)) {
            (None, Some(j)) => acc.push(ModelEntry { key, value: query[j].value }),
            _ => acc,
        }
    }
}

/// Root entries with a `search` table: the existing entry, or an empty
/// table appended.
pub open spec fn with_search(es: Seq<ModelEntry>) -> Seq<ModelEntry> {
    match find_key(es, "search"@) {
        Some(_) => es,
        None => es.push(ModelEntry { key: "search"@, value: TomlModel::Table(Seq::empty()) }),
    }
}

/// Copy settings from a legacy `[query]` table into `[search]` where
/// `[search]` lacks them.
pub open spec fn promote_model(root: TomlModel) -> TomlModel {
    match root {
        TomlModel::Table(es) => match find_key(es, "query"@) {
            Some(qi) => match es[qi].value {
                TomlModel::Table(q) => {
                    let es2 = with_search(es);
                    let si = find_key(es2, "search"@)->0;
                    match es2[si].value {
                        TomlModel::Table(st) => TomlModel::Table(
                            es2.update(
                                si,
                                ModelEntry {
                                    key: es2[si].key,
                                    value: TomlModel::Table(promote_fill(st, q, 4)),
                                },
                            ),
                        ),
                        _ => TomlModel::Table(es2),
                    }
                },
                _ => root,
            },
            None => root,
        },
        _ => root,
    }
}

fn promoted_key_v(k: usize) -> (r: &'static str)
    requires
        k < 4,
    ensures
        r@ == promoted_key(k as int),
{
    if k == 0 {
        "default_ref"
    } else if k == 1 {
        "freshness_policy"
    } else if k == 2 {
        "ranking_explain_level"
    } else {
        "max_response_bytes"
    }
}

/// Copy missing `[search]` settings from a legacy `[query]` table.
pub fn promote_query_section(merged: &mut TomlNode)
    ensures
        node_model(*final(merged)) == promote_model(node_model(*old(merged))),
{
    let mut root = TomlNode::Leaf(0);
    std::mem::swap(merged, &mut root);
    let ghost m0 = node_model(root);
    let mut es = match root {
        TomlNode::Table(es) => es,
        other => {
            *merged = other;
            return;
        },
    };
    proof {
        lemma_entries_model(es@, es@.len() as int);
    }
    let ghost em = table_model(es@);
    assert(m0 == TomlModel::Table(em));
    let qi = match find_entry(&es, "query") {
        Some(qi) => qi,
        None => {
            *merged = TomlNode::Table(es);
            return;
        },
    };
    proof {
        lemma_find_key_from(em, "query"@, 0);
    }
    let query = match &es[qi].value {
        TomlNode::Table(q) => copy_node(&es[qi].value),
        _ => {
            *merged = TomlNode::Table(es);
            return;
        },
    };
    let q = match query {
        TomlNode::Table(q) => q,
        TomlNode::Leaf(_) => {
            *merged = TomlNode::Table(es);
            return;
        },
    };
    let ghost qm = table_model(q@);
    proof {
        lemma_entries_model(q@, q@.len() as int);
    }
    assert(em[qi as int].value == TomlModel::Table(qm));
    let si = match find_entry(&es, "search") {
        Some(si) => si,
        None => {
            let empty: Vec<TomlEntry> = Vec::new();
            let ghost empty_node = TomlNode::Table(empty);
            assert(node_model(empty_node) =~= TomlModel::Table(Seq::empty()));
            es.push(TomlEntry { key: "search".to_owned(), value: TomlNode::Table(empty) });
            proof {
                lemma_entries_model_ext(
                    es@,
                    em.push(ModelEntry { key: "search"@, value: TomlModel::Table(Seq::empty()) }),
                );
            }
            es.len() - 1
        },
    };
    let ghost es2 = with_search(em);
    proof {
        lemma_entries_model(es@, es@.len() as int);
        lemma_find_key_from(es2, "search"@, 0);
        if find_key(em, "search"@) is None {
            lemma_find_key_from(em, "search"@, 0);
            assert(find_key_from(es2, "search"@, 0) == Some(em.len() as int)) by {
                lemma_find_key_none_push(em, "search"@, ModelEntry { key: "search"@, value: TomlModel::Table(Seq::empty()) });
            }
        }
    }
    assert(table_model(es@) == es2);
    assert(find_key(es2, "search"@) == Some(si as int));
    let entry = es.remove(si);
    let st0 = match entry.value {
        TomlNode::Table(st) => st,
        other => {
            es.insert(si, TomlEntry { key: entry.key, value: other });
            proof {
                lemma_entries_model_ext(es@, es2);
            }
            *merged = TomlNode::Table(es);
            return;
        },
    };
    let ghost stm0 = table_model(st0@);
    let mut st = st0;
    let mut k: usize = 0;
    while k < 4
        invariant
            k <= 4,
            qm == table_model(q@),
            table_model(st@) == promote_fill(stm0, qm, k as int),
        decreases 4 - k,
    {
        let key = promoted_key_v(k);
        let ghost acc = table_model(st@);
        proof {
            lemma_entries_model(st@, st@.len() as int);
            lemma_entries_model(q@, q@.len() as int);
        }
        if find_entry(&st, key).is_none() {
            match find_entry(&q, key) {
                Some(j) => {
                    proof {
                        lemma_find_key_from(qm, key@, 0);
                    }
                    let v = copy_node(&q[j].value);
                    st.push(TomlEntry { key: key.to_owned(), value: v });
                    proof {
                        lemma_entries_model_ext(
                            st@,
                            acc.push(ModelEntry { key: key@, value: qm[j as int].value }),
                        );
                    }
                },
                None => {},
            }
        }
        k = k + 1;
    }
    es.insert(si, TomlEntry { key: entry.key, value: TomlNode::Table(st) });
    proof {
        lemma_entries_model_ext(
            es@,
            es2.update(
                si as int,
                ModelEntry {
                    key: es2[si as int].key,
                    value: TomlModel::Table(promote_fill(stm0, qm, 4)),
                },
            ),
        );
    }
    *merged = TomlNode::Table(es);
}

proof fn lemma_find_key_none_push(es: Seq<ModelEntry>, key: Seq<char>, e: ModelEntry)
    requires
        find_key(es, key) is None,
        e.key == key,
    ensures
        find_key(es.push(e), key) == Some(es.len() as int),
{
    lemma_find_key_from(es, key, 0);
    lemma_find_key_from(es.push(e), key, 0);
    match find_key(es.push(e), key) {
        Some(j) => {
            if j < es.len() {
                assert(es.push(e)[j] == es[j]);
            }
        },
        None => {
            assert(es.push(e)[es.len() as int] == e);
        },
    }
}

/// The value under `key` in a table's entries.
pub open spec fn lookup_entries(es: Seq<ModelEntry>, key: Seq<char>) -> Option<TomlModel> {
    match find_key(es, key) {
        Some(i) => Some(es[i].value),
        None => None,
    }
}

/// The value under `key` in a table; none in a leaf.
pub open spec fn lookup(m: TomlModel, key: Seq<char>) -> Option<TomlModel> {
    match m {
        TomlModel::Table(es) => lookup_entries(es, key),
        TomlModel::Leaf(_) => None,
    }
}

/// No two entries share a key.
pub open spec fn unique_keys(es: Seq<ModelEntry>) -> bool {
    forall|i: int, j: int| 0 <= i < j < es.len() ==> es[i].key != es[j].key
}

proof fn lemma_find_key_same_keys(a: Seq<ModelEntry>, b: Seq<ModelEntry>, key: Seq<char>, i: int)
    requires
        a.len() == b.len(),
        0 <= i,
        forall|m: int| 0 <= m < a.len() ==> a[m].key == b[m].key,
    ensures
        find_key_from(a, key, i) == find_key_from(b, key, i),
    decreases a.len() - i,
{
    if i < a.len() {
        lemma_find_key_same_keys(a, b, key, i + 1);
    }
}

proof fn lemma_find_key_push_other(a: Seq<ModelEntry>, e: ModelEntry, key: Seq<char>)
    requires
        e.key != key,
    ensures
        find_key(a.push(e), key) == find_key(a, key),
{
    lemma_find_key_from(a, key, 0);
    lemma_find_key_from(a.push(e), key, 0);
    match find_key(a.push(e), key) {
        Some(j) => {
            assert(j < a.len());
            assert(a.push(e)[j] == a[j]);
            assert forall|m: int| 0 <= m < j implies a[m].key != key by {
                assert(a.push(e)[m] == a[m]);
            }
            match find_key(a, key) {
                Some(j2) => {
                    assert(a.push(e)[j2] == a[j2]);
                },
                None => {},
            }
        },
        None => {
            match find_key(a, key) {
                Some(j2) => {
                    assert(a.push(e)[j2] == a[j2]);
                },
                None => {},
            }
        },
    }
}

/// One merge step keeps what any other key looks up to.
proof fn lemma_merge_step_other(be: Seq<ModelEntry>, oe: Seq<ModelEntry>, k: int, key: Seq<char>)
    requires
        0 < k <= oe.len(),
        oe[k - 1].key != key,
    ensures
        lookup_entries(merge_model_entries(be, oe, k), key) == lookup_entries(
            merge_model_entries(be, oe, k - 1),
            key,
        ),
{
    let acc = merge_model_entries(be, oe, k - 1);
    let e = oe[k - 1];
    match find_key(acc, e.key) {
        Some(i) => {
            lemma_find_key_from(acc, e.key, 0);
            let merged = if acc[i].value is Table && e.value is Table {
                merge_model(acc[i].value, e.value)
            } else {
                e.value
            };
            let next = acc.update(i, ModelEntry { key: acc[i].key, value: merged });
            assert(merge_model_entries(be, oe, k) == next);
            lemma_find_key_same_keys(acc, next, key, 0);
            lemma_find_key_from(acc, key, 0);
            match find_key(acc, key) {
                Some(j) => {
                    assert(j != i);
                    assert(next[j] == acc[j]);
                },
                None => {},
            }
        },
        None => {
            lemma_find_key_push_other(acc, e, key);
            lemma_find_key_from(acc, key, 0);
            match find_key(acc, key) {
                Some(j) => {
                    assert(acc.push(e)[j] == acc[j]);
                },
                None => {},
            }
        },
    }
}

proof fn lemma_merge_entries_other(be: Seq<ModelEntry>, oe: Seq<ModelEntry>, k: int, from: int, key: Seq<char>)
    requires
        0 <= from <= k <= oe.len(),
        forall|j: int| from <= j < k ==> oe[j].key != key,
    ensures
        lookup_entries(merge_model_entries(be, oe, k), key) == lookup_entries(
            merge_model_entries(be, oe, from),
            key,
        ),
    decreases k - from,
{
    if k > from {
        lemma_merge_step_other(be, oe, k, key);
        lemma_merge_entries_other(be, oe, k - 1, from, key);
    }
}

/// Merging keeps every setting the overlay does not mention.
pub proof fn lemma_merge_keeps_unset_keys(base: TomlModel, overlay: TomlModel, key: Seq<char>)
    requires
        base is Table,
        overlay matches TomlModel::Table(oe) && find_key(oe, key) is None,
    ensures
        lookup(merge_model(base, overlay), key) == lookup(base, key),
{
    let be = base->Table_0;
    let oe = overlay->Table_0;
    lemma_find_key_from(oe, key, 0);
    lemma_merge_entries_other(be, oe, oe.len() as int, 0, key);
}

/// A setting the overlay gives a plain (non-table) value has that value
/// after merging, whatever the base held.
pub proof fn lemma_merge_overlay_value_wins(base: TomlModel, overlay: TomlModel, j: int)
    requires
        base is Table,
        overlay matches TomlModel::Table(oe) && unique_keys(oe) && 0 <= j < oe.len() && !(
        oe[j].value is Table),
    ensures
        lookup(merge_model(base, overlay), overlay->Table_0[j].key) == Some(
            overlay->Table_0[j].value,
        ),
{
    let be = base->Table_0;
    let oe = overlay->Table_0;
    let key = oe[j].key;
    let acc = merge_model_entries(be, oe, j);
    let e = oe[j];
    assert(lookup_entries(merge_model_entries(be, oe, j + 1), key) == Some(e.value)) by {
        match find_key(acc, key) {
            Some(i) => {
                lemma_find_key_from(acc, key, 0);
                let next = acc.update(i, ModelEntry { key: acc[i].key, value: e.value });
                assert(merge_model_entries(be, oe, j + 1) == next);
                lemma_find_key_same_keys(acc, next, key, 0);
            },
            None => {
                lemma_find_key_none_push(acc, key, e);
            },
        }
    }
    assert forall|m: int| j + 1 <= m < oe.len() implies oe[m].key != key by {
        assert(oe[j].key != oe[m].key);
    }
    lemma_merge_entries_other(be, oe, oe.len() as int, j + 1, key);
}

/// The number of leaves of a tree.
pub open spec fn leaf_count(m: TomlModel) -> nat
    decreases m, 1int, 0int,
{
    match m {
        TomlModel::Leaf(_) => 1,
        TomlModel::Table(es) => {
            proof {
                assert(decreases_to!(m => es));
            }
            entries_leaf_count(es, es.len() as int)
        },
    }
}

/// The number of leaves under the first `k` entries.
pub open spec fn entries_leaf_count(es: Seq<ModelEntry>, k: int) -> nat
    decreases es, 0int, k,
{
    if k <= 0 || k > es.len() {
        0
    } else {
        proof {
            assert(decreases_to!(es => es[k - 1]));
            assert(decreases_to!(es[k - 1] => es[k - 1].value));
        }
        entries_leaf_count(es, k - 1) + leaf_count(es[k - 1].value)
    }
}

/// Every leaf id of a tree is below `n`.
pub open spec fn leaves_below(m: TomlModel, n: nat) -> bool
    decreases m, 1int, 0int,
{
    match m {
        TomlModel::Leaf(id) => id < n,
        TomlModel::Table(es) => {
            proof {
                assert(decreases_to!(m => es));
            }
            entries_leaves_below(es, n, es.len() as int)
        },
    }
}

/// Every leaf id under the first `k` entries is below `n`.
pub open spec fn entries_leaves_below(es: Seq<ModelEntry>, n: nat, k: int) -> bool
    decreases es, 0int, k,
{
    if k <= 0 || k > es.len() {
        true
    } else {
        proof {
            assert(decreases_to!(es => es[k - 1]));
            assert(decreases_to!(es[k - 1] => es[k - 1].value));
        }
        entries_leaves_below(es, n, k - 1) && leaves_below(es[k - 1].value, n)
    }
}

/// A tree with `base` added to every leaf id.
pub open spec fn offset_model(m: TomlModel, base: nat) -> TomlModel
    decreases m, 1int, 0int,
{
    match m {
        TomlModel::Leaf(id) => TomlModel::Leaf((id + base) as u64),
        TomlModel::Table(es) => {
            proof {
                assert(decreases_to!(m => es));
            }
            TomlModel::Table(offset_entries(es, base, es.len() as int))
        },
    }
}

/// The first `k` entries with `base` added to every leaf id.
pub open spec fn offset_entries(es: Seq<ModelEntry>, base: nat, k: int) -> Seq<ModelEntry>
    decreases es, 0int, k,
{
    if k <= 0 || k > es.len() {
        Seq::empty()
    } else {
        proof {
            assert(decreases_to!(es => es[k - 1]));
            assert(decreases_to!(es[k - 1] => es[k - 1].value));
        }
        offset_entries(es, base, k - 1).push(
            ModelEntry { key: es[k - 1].key, value: offset_model(es[k - 1].value, base) },
        )
    }
}

proof fn lemma_entries_leaves_below(es: Seq<ModelEntry>, n: nat, k: int)
    requires
        0 <= k <= es.len(),
    ensures
        entries_leaves_below(es, n, k) <==> forall|j: int|
            0 <= j < k ==> leaves_below(#[trigger] es[j].value, n),
    decreases k,
{
    if k > 0 {
        lemma_entries_leaves_below(es, n, k - 1);
    }
}

proof fn lemma_offset_entries(es: Seq<ModelEntry>, base: nat, k: int)
    requires
        0 <= k <= es.len(),
    ensures
        offset_entries(es, base, k).len() == k,
        forall|j: int|
            0 <= j < k ==> #[trigger] offset_entries(es, base, k)[j] == (ModelEntry {
                key: es[j].key,
                value: offset_model(es[j].value, base),
            }),
    decreases k,
{
    if k > 0 {
        lemma_offset_entries(es, base, k - 1);
    }
}

/// A bound on the leaf ids of a tree holds for every larger bound.
proof fn lemma_leaves_below_mono(m: TomlModel, a: nat, b: nat)
    requires
        leaves_below(m, a),
        a <= b,
    ensures
        leaves_below(m, b),
    decreases m,
{
    match m {
        TomlModel::Leaf(_) => {},
        TomlModel::Table(es) => {
            lemma_entries_leaves_below(es, a, es.len() as int);
            lemma_entries_leaves_below(es, b, es.len() as int);
            assert forall|j: int| 0 <= j < es.len() implies leaves_below(#[trigger] es[j].value, b) by {
                assert(decreases_to!(m => es));
                assert(decreases_to!(es => es[j]));
                assert(decreases_to!(es[j] => es[j].value));
                lemma_leaves_below_mono(es[j].value, a, b);
            }
        },
    }
}

/// A copy of a tree with `base` added to every leaf id.
fn offset_leaves(n: &TomlNode, base: usize) -> (r: TomlNode)
    requires
        leaves_below(node_model(*n), (usize::MAX - base) as nat),
    ensures
        node_model(r) == offset_model(node_model(*n), base as nat),
    decreases n,
{
    match n {
        TomlNode::Leaf(id) => TomlNode::Leaf(*id + base as u64),
        TomlNode::Table(es) => {
            let ghost em = table_model(es@);
            proof {
                lemma_entries_model(es@, es@.len() as int);
                lemma_entries_leaves_below(em, (usize::MAX - base) as nat, em.len() as int);
                lemma_offset_entries(em, base as nat, em.len() as int);
            }
            let mut out: Vec<TomlEntry> = Vec::new();
            let mut i: usize = 0;
            while i < es.len()
                invariant
                    i <= es@.len(),
                    *n == TomlNode::Table(*es),
                    em == table_model(es@),
                    em.len() == es@.len(),
                    forall|j: int|
                        0 <= j < es@.len() ==> #[trigger] em[j] == (ModelEntry {
                            key: es@[j].key@,
                            value: node_model(es@[j].value),
                        }),
                    forall|j: int|
                        0 <= j < em.len() ==> leaves_below(
                            #[trigger] em[j].value,
                            (usize::MAX - base) as nat,
                        ),
                    out@.len() == i,
                    forall|j: int|
                        0 <= j < i ==> #[trigger] out@[j].key@ == es@[j].key@ && node_model(
                            out@[j].value,
                        ) == offset_model(node_model(es@[j].value), base as nat),
                decreases es.len() - i,
            {
                assert((*n)->Table_0 == *es);
                assert(decreases_to!(*n => (*n)->Table_0));
                assert(decreases_to!(*es => es@));
                assert(decreases_to!(es@ => es@[i as int]));
                assert(decreases_to!(es@[i as int] => es@[i as int].value));
                assert(decreases_to!(*n => es@[i as int].value));
                assert(em[i as int].value == node_model(es@[i as int].value));
                let v = offset_leaves(&es[i].value, base);
                out.push(TomlEntry { key: es[i].key.clone(), value: v });
                i = i + 1;
            }
            proof {
                lemma_entries_model_ext(out@, offset_entries(em, base as nat, em.len() as int));
            }
            TomlNode::Table(out)
        },
    }
}

/// Declares `toml::Value`, the values of parsed TOML documents.
#[verifier::external_type_specification]
#[verifier::external_body]
pub struct ExTomlValue(toml::Value);

/// The tree of a TOML document: its tables as tables and every other value
/// as a leaf, numbered from 0 in the order a walk of the parsed document
/// meets them; or the text of the parse error.
pub uninterp spec fn toml_tree(text: Seq<char>) -> Result<TomlModel, Seq<char>>;

/// Converts a value of a parsed document into a tree: a table becomes a
/// table of its entries in the map's order, any other value is pushed to
/// `leaves` and becomes a leaf whose id is its position there.
#[verifier::external_body]
fn toml_value_node(value: &toml::Value, leaves: &mut Vec<toml::Value>) -> (r: TomlNode)
    ensures
        final(leaves)@.len() == old(leaves)@.len() + leaf_count(node_model(r)),
        leaves_below(node_model(r), final(leaves)@.len()),
{
    match value {
        toml::Value::Table(map) => {
            let mut entries = Vec::new();
            for (key, v) in map.iter() {
                entries.push(TomlEntry { key: key.clone(), value: toml_value_node(v, leaves) });
            }
            TomlNode::Table(entries)
        },
        other => {
            let id = leaves.len() as u64;
            leaves.push(other.clone());
            TomlNode::Leaf(id)
        },
    }
}

/// Calls `str::parse::<toml::Value>` (toml's `FromStr for Value`) on a
/// document's text. Its tree and leaves are the ones `toml_tree` names; a
/// failed parse hands back the error's text. What each leaf holds is not
/// stated.
#[verifier::external_body]
fn parse_toml_tree(text: &str) -> (r: Result<(TomlNode, Vec<toml::Value>), String>)
    ensures
        match r {
            Ok((node, leaves)) => {
                &&& toml_tree(text@) == Ok::<TomlModel, Seq<char>>(node_model(node))
                &&& leaves@.len() == leaf_count(node_model(node))
                &&& leaves_below(node_model(node), leaves@.len())
            },
            Err(message) => toml_tree(text@) == Err::<TomlModel, Seq<char>>(message@),
        },
{
    match text.parse::<toml::Value>() {
        Ok(value) => {
            let mut leaves = Vec::new();
            let node = toml_value_node(&value, &mut leaves);
            Ok((node, leaves))
        },
        Err(e) => Err(e.to_string()),
    }
}

/// The configuration tree and leaf count after one more layer: its
/// document's tree, leaf ids moved past the leaves held so far, merged over
/// what is there; or the layer's parse error.
pub open spec fn layer_spec(acc: Result<(TomlModel, nat), Seq<char>>, text: Option<Seq<char>>) -> Result<
    (TomlModel, nat),
    Seq<char>,
> {
    match acc {
        Err(e) => Err(e),
        Ok((m, n)) => match text {
            None => Ok((m, n)),
            Some(t) => match toml_tree(t) {
                Err(e) => Err(e),
                Ok(l) => Ok((merge_model(m, offset_model(l, n)), n + leaf_count(l))),
            },
        },
    }
}

/// The layered configuration tree: global, project and explicit documents
/// (when present) merged in that order over an empty table, later layers
/// winning, then legacy `[query]` settings promoted; with its leaf count.
pub open spec fn layered_spec(
    global: Option<Seq<char>>,
    project: Option<Seq<char>>,
    explicit: Option<Seq<char>>,
) -> Result<(TomlModel, nat), Seq<char>> {
    let empty = Ok::<(TomlModel, nat), Seq<char>>((TomlModel::Table(Seq::empty()), 0nat));
    match layer_spec(layer_spec(layer_spec(empty, global), project), explicit) {
        Ok((m, n)) => Ok((promote_model(m), n)),
        Err(e) => Err(e),
    }
}

/// Merge one configuration document over the tree built so far; its leaves
/// are appended to `leaves` and its leaf ids moved past those held before.
/// A document that does not parse leaves both unchanged.
pub fn add_config_layer(merged: &mut TomlNode, leaves: &mut Vec<toml::Value>, text: &str) -> (r: Result<
    (),
    ConfigError,
>)
    ensures
        match layer_spec(
            Ok::<(TomlModel, nat), Seq<char>>((node_model(*old(merged)), old(leaves)@.len())),
            Some(text@),
        ) {
            Ok((m, n)) => {
                &&& r is Ok
                &&& node_model(*final(merged)) == m
                &&& final(leaves)@.len() == n
                &&& final(leaves)@.take(old(leaves)@.len() as int) == old(leaves)@
            },
            Err(e) => {
                &&& r matches Err(ConfigError::ParseError(message)) && message@ == e
                &&& *final(merged) == *old(merged)
                &&& final(leaves)@ == old(leaves)@
            },
        },
{
    match parse_toml_tree(text) {
        Err(message) => Err(ConfigError::ParseError(message)),
        Ok((node, layer_leaves)) => {
            let mut layer_leaves = layer_leaves;
            let base = leaves.len();
            let ghost before = leaves@;
            let ghost count = layer_leaves@.len();
            leaves.append(&mut layer_leaves);
            let total = leaves.len();
            assert(total == base + count);
            assert(leaves@.take(base as int) =~= before);
            proof {
                lemma_leaves_below_mono(node_model(node), count, (usize::MAX - base) as nat);
            }
            let shifted = offset_leaves(&node, base);
            merge_toml_values(merged, &shifted);
            Ok(())
        },
    }
}

/// The layered configuration tree of the global, project and explicit
/// documents (each when present) with the leaves its ids refer to, or the
/// first parse error.
pub fn layered_config_tree(global: Option<&str>, project: Option<&str>, explicit: Option<&str>) -> (r: Result<
    (TomlNode, Vec<toml::Value>),
    ConfigError,
>)
    ensures
        match layered_spec(opt_text(global), opt_text(project), opt_text(explicit)) {
            Ok((m, n)) => r matches Ok((node, leaves)) && node_model(node) == m && leaves@.len() == n,
            Err(e) => r matches Err(ConfigError::ParseError(message)) && message@ == e,
        },
{
    let mut merged = TomlNode::Table(Vec::new());
    let mut leaves: Vec<toml::Value> = Vec::new();
    assert(node_model(merged) == TomlModel::Table(Seq::<ModelEntry>::empty())) by {
        assert(table_model(Seq::<TomlEntry>::empty()) =~= Seq::<ModelEntry>::empty());
    }
    let ghost start = Ok::<(TomlModel, nat), Seq<char>>((node_model(merged), 0nat));
    let ghost acc0 = start;
    let ghost acc1 = layer_spec(acc0, opt_text(global));
    let ghost acc2 = layer_spec(acc1, opt_text(project));
    let ghost acc3 = layer_spec(acc2, opt_text(explicit));
    if let Some(t) = global {
        add_config_layer(&mut merged, &mut leaves, t)?;
    }
    assert(acc1 == Ok::<(TomlModel, nat), Seq<char>>((node_model(merged), leaves@.len())));
    if let Some(t) = project {
        add_config_layer(&mut merged, &mut leaves, t)?;
    }
    assert(acc2 == Ok::<(TomlModel, nat), Seq<char>>((node_model(merged), leaves@.len())));
    if let Some(t) = explicit {
        add_config_layer(&mut merged, &mut leaves, t)?;
    }
    assert(acc3 == Ok::<(TomlModel, nat), Seq<char>>((node_model(merged), leaves@.len())));
    promote_query_section(&mut merged);
    Ok((merged, leaves))
}

pub open spec fn opt_text(o: Option<&str>) -> Option<Seq<char>> {
    match o {
        Some(s) => Some(s@),
        None => None,
    }
}

} // verus!
