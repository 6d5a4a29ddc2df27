use codecompass::config_tree::{
    add_config_layer, layered_config_tree, merge_toml_values, promote_query_section, TomlEntry, TomlNode,
};
use codecompass::errors::ConfigError;

fn table(entries: Vec<(&str, TomlNode)>) -> TomlNode {
    TomlNode::Table(entries.into_iter().map(|(k, v)| TomlEntry { key: k.to_string(), value: v }).collect())
}

fn get<'a>(node: &'a TomlNode, key: &str) -> Option<&'a TomlNode> {
    match node {
        TomlNode::Table(entries) => entries.iter().find(|e| e.key == key).map(|e| &e.value),
        TomlNode::Leaf(_) => None,
    }
}

fn leaf_id(node: Option<&TomlNode>) -> Option<u64> {
    match node {
        Some(TomlNode::Leaf(id)) => Some(*id),
        _ => None,
    }
}

#[test]
fn promote_query_section_copies_missing_fields() {
    // [query] freshness_policy = 1, ranking_explain_level = 2, max_response_bytes = 3
    let mut merged = table(vec![(
        "query",
        table(vec![
            ("freshness_policy", TomlNode::Leaf(1)),
            ("ranking_explain_level", TomlNode::Leaf(2)),
            ("max_response_bytes", TomlNode::Leaf(3)),
        ]),
    )]);
    promote_query_section(&mut merged);
    let search = get(&merged, "search").unwrap();
    assert_eq!(leaf_id(get(search, "freshness_policy")), Some(1));
    assert_eq!(leaf_id(get(search, "ranking_explain_level")), Some(2));
    assert_eq!(leaf_id(get(search, "max_response_bytes")), Some(3));
    assert!(get(search, "default_ref").is_none());
}

#[test]
fn promote_keeps_existing_search_settings() {
    let mut merged = table(vec![
        ("search", table(vec![("freshness_policy", TomlNode::Leaf(9))])),
        ("query", table(vec![("freshness_policy", TomlNode::Leaf(1)), ("default_ref", TomlNode::Leaf(4))])),
    ]);
    promote_query_section(&mut merged);
    let search = get(&merged, "search").unwrap();
    assert_eq!(leaf_id(get(search, "freshness_policy")), Some(9));
    assert_eq!(leaf_id(get(search, "default_ref")), Some(4));
}

#[test]
fn promote_without_query_table_changes_nothing() {
    let mut merged = table(vec![("query", TomlNode::Leaf(1))]);
    promote_query_section(&mut merged);
    assert!(get(&merged, "search").is_none());
}

#[test]
fn merge_layers_later_values_win_and_tables_merge() {
    let mut base = table(vec![
        ("search", table(vec![("default_ref", TomlNode::Leaf(1)), ("freshness_policy", TomlNode::Leaf(2))])),
        ("logging", table(vec![("level", TomlNode::Leaf(3))])),
    ]);
    let overlay = table(vec![
        ("search", table(vec![("freshness_policy", TomlNode::Leaf(20)), ("max_response_bytes", TomlNode::Leaf(21))])),
        ("debug", table(vec![("ranking_reasons", TomlNode::Leaf(22))])),
    ]);
    merge_toml_values(&mut base, &overlay);
    let search = get(&base, "search").unwrap();
    assert_eq!(leaf_id(get(search, "default_ref")), Some(1));
    assert_eq!(leaf_id(get(search, "freshness_policy")), Some(20));
    assert_eq!(leaf_id(get(search, "max_response_bytes")), Some(21));
    assert_eq!(leaf_id(get(get(&base, "logging").unwrap(), "level")), Some(3));
    assert_eq!(leaf_id(get(get(&base, "debug").unwrap(), "ranking_reasons")), Some(22));
}

#[test]
fn merge_replaces_table_with_leaf_and_ignores_leaf_overlay() {
    let mut base = table(vec![("search", table(vec![("x", TomlNode::Leaf(1))]))]);
    merge_toml_values(&mut base, &table(vec![("search", TomlNode::Leaf(7))]));
    assert_eq!(leaf_id(get(&base, "search")), Some(7));
    let mut base2 = table(vec![("a", TomlNode::Leaf(1))]);
    merge_toml_values(&mut base2, &TomlNode::Leaf(5));
    assert_eq!(leaf_id(get(&base2, "a")), Some(1));
}

fn setting(node: &TomlNode, leaves: &[toml::Value], section: &str, key: &str) -> Option<toml::Value> {
    match get(get(node, section)?, key)? {
        TomlNode::Leaf(id) => Some(leaves[*id as usize].clone()),
        TomlNode::Table(_) => None,
    }
}

#[test]
fn layered_config_later_files_win_per_setting() {
    let global = "[search]\ndefault_ref = \"main\"\nfreshness_policy = \"strict\"\n[index]\nmax_file_size = 10\n";
    let project = "[search]\ndefault_ref = \"dev\"\n";
    let explicit = "[index]\nmax_file_size = 20\n";
    let (tree, leaves) = layered_config_tree(Some(global), Some(project), Some(explicit)).expect("parses");
    assert_eq!(setting(&tree, &leaves, "search", "default_ref"), Some(toml::Value::String("dev".to_string())));
    assert_eq!(setting(&tree, &leaves, "search", "freshness_policy"), Some(toml::Value::String("strict".to_string())));
    assert_eq!(setting(&tree, &leaves, "index", "max_file_size"), Some(toml::Value::Integer(20)));
    assert_eq!(leaves.len(), 5);
}

#[test]
fn layered_config_promotes_legacy_query_settings() {
    let (tree, leaves) = layered_config_tree(None, Some("[query]\nranking_explain_level = \"full\"\n"), None).expect("parses");
    assert_eq!(
        setting(&tree, &leaves, "search", "ranking_explain_level"),
        Some(toml::Value::String("full".to_string()))
    );
}

#[test]
fn config_layer_that_does_not_parse_is_an_error() {
    let mut tree = TomlNode::Table(Vec::new());
    let mut leaves = Vec::new();
    add_config_layer(&mut tree, &mut leaves, "[search]\ndefault_ref = \"a\"\n").expect("parses");
    let err = add_config_layer(&mut tree, &mut leaves, "[search\n").unwrap_err();
    assert!(matches!(err, ConfigError::ParseError(ref m) if !m.is_empty()));
    assert_eq!(leaves.len(), 1);
    assert_eq!(setting(&tree, &leaves, "search", "default_ref"), Some(toml::Value::String("a".to_string())));
    assert!(matches!(layered_config_tree(Some("x = "), None, None), Err(ConfigError::ParseError(_))));
}
