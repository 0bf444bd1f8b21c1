use koishi::document::attributes_from;
use koishi::document::attributes_of;
use koishi::document::needs_yaml;
use koishi::document::DocumentError;
use koishi::document::Field;
use koishi::document::Node;
use saphyr::LoadableYamlNode;
use saphyr::Scalar;
use saphyr::Yaml;

fn text(s: &str) -> Node {
    Node::Text(s.to_string())
}

fn yaml_node(yaml: &Yaml) -> Node {
    match yaml {
        Yaml::Value(Scalar::String(s)) => Node::Text(s.to_string()),
        Yaml::Mapping(map) => Node::Mapping(
            map.iter().map(|(k, v)| Field { key: yaml_node(k), value: yaml_node(v) }).collect(),
        ),
        _ => Node::Other,
    }
}

/// The attributes of a text, with YAML parsed where it is needed.
fn discover_attributes(content: &str) -> Result<Vec<String>, DocumentError> {
    let yaml = if needs_yaml(content) {
        Yaml::load_from_str(content).ok().map(|docs| docs.iter().map(yaml_node).collect())
    } else {
        None
    };
    koishi::document::discover_attributes(content, &yaml)
}

fn field(key: &str, value: Node) -> Field {
    Field { key: text(key), value }
}

#[test]
fn string_leaves_are_reported_by_their_paths() {
    let found = discover_attributes(r#"{"a": "x", "b": {"c": "y"}, "sops": {"version": "3.9"}}"#);
    assert_eq!(found.unwrap(), vec!["a", "b/c"]);
}

#[test]
fn attributes_follow_the_order_of_the_document() {
    let found = discover_attributes(r#"{"zeta": "1", "alpha": "2", "mid": {"z": "3", "a": "4"}}"#);
    assert_eq!(found.unwrap(), vec!["zeta", "alpha", "mid/z", "mid/a"]);
}

#[test]
fn values_that_are_not_strings_are_skipped() {
    let found = discover_attributes(
        r#"{"n": 1, "t": true, "z": null, "l": ["a", {"b": "c"}], "s": "kept", "o": {"n": 2}}"#,
    );
    assert_eq!(found.unwrap(), vec!["s"]);
}

#[test]
fn metadata_key_is_skipped_at_the_root_only() {
    let found = discover_attributes(r#"{"sops": "x", "a": {"sops": "kept", "b": "y"}}"#);
    assert_eq!(found.unwrap(), vec!["a/sops", "a/b"]);
}

#[test]
fn yaml_mappings_are_read_too() {
    let yaml = "user: me\nlogin:\n  password: secret\n  port: 22\n  tags:\n    - a\nsops:\n  version: 3.9\n";
    assert_eq!(discover_attributes(yaml).unwrap(), vec!["user", "login/password"]);
}

#[test]
fn yaml_keys_that_are_not_strings_are_skipped() {
    let yaml = "1: one\ntrue: yes\nname: value\n";
    assert_eq!(discover_attributes(yaml).unwrap(), vec!["name"]);
}

#[test]
fn only_the_first_yaml_document_counts() {
    let yaml = "a: x\n---\nb: y\n";
    assert_eq!(discover_attributes(yaml).unwrap(), vec!["a"]);
}

#[test]
fn text_that_is_not_structured_is_an_error() {
    for content in ["just some words", "- a\n- b\n", "42", "\"text\"", "[1, 2]", "", "{unclosed: [", "a: b: c: ["] {
        let result = discover_attributes(content);
        assert_eq!(result, Err(DocumentError::NotStructured), "{content}");
    }
    assert_eq!(DocumentError::NotStructured.message(), "File is not valid JSON or YAML");
}

#[test]
fn yaml_is_asked_for_unless_the_text_is_a_json_object() {
    assert!(!needs_yaml("{\"a\": 1}"));
    assert!(!needs_yaml("{}"));
    assert!(needs_yaml("a: 1"));
    assert!(needs_yaml("[1]"));
    assert!(needs_yaml("\"text\""));
    assert!(needs_yaml("{broken"));
    assert!(needs_yaml(""));
}

#[test]
fn yaml_is_not_looked_at_for_a_json_object() {
    let yaml = Some(vec![Node::Mapping(vec![field("from-yaml", text("1"))])]);
    let found = koishi::document::discover_attributes("{\"from-json\": \"2\"}", &yaml);
    assert_eq!(found.unwrap(), vec!["from-json"]);
    let found = koishi::document::discover_attributes("not json", &yaml);
    assert_eq!(found.unwrap(), vec!["from-yaml"]);
    let found = koishi::document::discover_attributes("not json", &None);
    assert_eq!(found, Err(DocumentError::NotStructured));
}

#[test]
fn an_empty_object_has_no_attributes() {
    assert_eq!(discover_attributes("{}").unwrap(), Vec::<String>::new());
}

#[test]
fn deep_nesting_joins_every_key() {
    let found = discover_attributes(r#"{"a": {"b": {"c": {"d": "leaf"}}, "e": "f"}}"#);
    assert_eq!(found.unwrap(), vec!["a/b/c/d", "a/e"]);
}

#[test]
fn attributes_of_a_tree_built_by_hand() {
    let root = Node::Mapping(vec![
        field("a", text("x")),
        field("b", Node::Mapping(vec![field("c", text("y")), field("n", Node::Other)])),
        field("sops", Node::Mapping(vec![field("mac", text("z"))])),
        Field { key: Node::Other, value: text("no key") },
        field("", text("empty key")),
    ]);
    assert_eq!(attributes_of(&root), vec!["a", "b/c", ""]);
}

#[test]
fn a_json_object_goes_before_yaml() {
    let json = Some(Node::Mapping(vec![field("j", text("1"))]));
    let yaml = Some(vec![Node::Mapping(vec![field("y", text("2"))])]);
    assert_eq!(attributes_from(&json, &yaml).unwrap(), vec!["j"]);
    assert_eq!(attributes_from(&Some(Node::Other), &yaml).unwrap(), vec!["y"]);
    assert_eq!(attributes_from(&None, &yaml).unwrap(), vec!["y"]);
    assert_eq!(attributes_from(&Some(text("s")), &None), Err(DocumentError::NotStructured));
    assert_eq!(attributes_from(&None, &Some(Vec::new())), Err(DocumentError::NotStructured));
    assert_eq!(attributes_from(&None, &Some(vec![text("s")])), Err(DocumentError::NotStructured));
    assert_eq!(attributes_from(&None, &None), Err(DocumentError::NotStructured));
}
