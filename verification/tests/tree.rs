use gh_workflow::error::WorkflowError;
use gh_workflow::tree::Shape;
use gh_workflow::tree::Tree;
use gh_workflow::OrderedMap;

fn sample() -> Tree {
    let inner = OrderedMap::new()
        .insert("flag".to_string(), Tree::Bool(true))
        .insert("count".to_string(), Tree::Number(-3))
        .insert("none".to_string(), Tree::Null);
    Tree::Object(
        OrderedMap::new()
            .insert("zeta".to_string(), Tree::String("last letter first".to_string()))
            .insert("list".to_string(), Tree::Array(vec![Tree::Number(1), Tree::String("two".to_string()), Tree::Array(vec![])]))
            .insert("alpha".to_string(), Tree::Object(inner)),
    )
}

#[test]
fn trees_render_every_kind_of_node_in_order() {
    assert_eq!(
        sample().render().unwrap(),
        "zeta: last letter first\nlist:\n- 1\n- two\n- []\nalpha:\n  flag: true\n  count: -3\n  none: null\n"
    );
}

#[test]
fn trees_come_back_from_their_text() {
    let tree = sample();
    let back = Tree::parse(&tree.render().unwrap()).unwrap();
    assert_eq!(back, tree);
    assert!(back.same(&tree));
    assert!(tree.duplicate().same(&tree));
}

#[test]
fn trees_go_to_json_values_and_back() {
    let tree = sample();
    let json = tree.to_json();
    assert_eq!(json["zeta"], serde_json::Value::String("last letter first".to_string()));
    assert_eq!(json["list"][0], serde_json::Value::from(1));
    assert_eq!(json["alpha"]["flag"], serde_json::Value::Bool(true));
    assert_eq!(json["alpha"]["count"], serde_json::Value::from(-3));
    assert_eq!(json["alpha"]["none"], serde_json::Value::Null);
    let keys: Vec<&String> = json.as_object().unwrap().keys().collect();
    assert_eq!(keys, ["zeta", "list", "alpha"]);
    assert_eq!(Tree::from_json(&json), Some(tree));
}

#[test]
fn numbers_beyond_an_i64_are_refused() {
    assert_eq!(Tree::from_json(&serde_json::Value::from(u64::MAX)), None);
    assert_eq!(Tree::from_json(&serde_json::Value::from(i64::MAX)), Some(Tree::Number(i64::MAX)));
    assert_eq!(Tree::from_json(&serde_json::Value::from(i64::MIN)), Some(Tree::Number(i64::MIN)));
    let nested = serde_json::Value::Array(vec![serde_json::Value::from(1), serde_json::Value::from(u64::MAX)]);
    assert_eq!(Tree::from_json(&nested), None);
    assert!(matches!(Tree::parse("a: 1.5\n"), Err(WorkflowError::Parse)));
    assert!(matches!(Tree::parse("a: 18446744073709551615\n"), Err(WorkflowError::Parse)));
    assert!(matches!(Tree::parse("a: [1, 2\n"), Err(WorkflowError::Yaml(_))));
}

#[test]
fn shapes_are_told_apart() {
    assert_eq!(Tree::Null.shape(), Shape::Single);
    assert_eq!(Tree::Bool(false).shape(), Shape::Single);
    assert_eq!(Tree::Number(0).shape(), Shape::Single);
    assert_eq!(Tree::String(String::new()).shape(), Shape::Single);
    assert_eq!(Tree::Array(vec![]).shape(), Shape::List);
    assert_eq!(Tree::Object(OrderedMap::new()).shape(), Shape::Mapping);
    assert_eq!(Tree::parse("push").unwrap().shape(), Shape::Single);
    assert_eq!(Tree::parse("[push, pull_request]").unwrap().shape(), Shape::List);
    assert_eq!(Tree::parse("push: {}").unwrap().shape(), Shape::Mapping);
}

#[test]
fn trees_differ_where_their_nodes_do() {
    assert_ne!(Tree::Number(1), Tree::String("1".to_string()));
    assert_ne!(Tree::Array(vec![Tree::Null]), Tree::Array(vec![]));
    assert_ne!(Tree::Array(vec![Tree::Number(1)]), Tree::Array(vec![Tree::Number(2)]));
    let ab = OrderedMap::new().insert("a".to_string(), Tree::Null).insert("b".to_string(), Tree::Null);
    let ba = OrderedMap::new().insert("b".to_string(), Tree::Null).insert("a".to_string(), Tree::Null);
    assert_ne!(Tree::Object(ab), Tree::Object(ba));
}

#[test]
fn strings_that_look_like_other_things_come_back_as_strings() {
    for s in [
        "", " ", "true", "false", "null", "~", "123", "-1", "1.5", "1e3", "0x10", "a: b", "- x", "# c", "'q'", "\"d\"",
        "line\nbreak", "tab\tin", " lead", "trail ", "on", "yes", "no", "${{ x }}", "{a}", "[a]", "*a", "&a", "!t", "|",
        ">", "@at", "`tick`", "%p", "é ü 日本", "a\u{0}b",
    ] {
        let tree = Tree::Array(vec![
            Tree::String(s.to_string()),
            Tree::Object(OrderedMap::new().insert(s.to_string(), Tree::String(s.to_string()))),
        ]);
        let text = tree.render().unwrap();
        assert_eq!(Tree::parse(&text).unwrap(), tree, "{:?} in {:?}", s, text);
    }
}

#[test]
fn numbers_and_nulls_come_back_as_they_are() {
    for n in [0, 1, -1, 42, i64::MAX, i64::MIN] {
        let tree = Tree::Object(OrderedMap::new().insert("n".to_string(), Tree::Number(n)));
        assert_eq!(Tree::parse(&tree.render().unwrap()).unwrap(), tree);
    }
    for tree in [Tree::Null, Tree::Bool(true), Tree::Bool(false), Tree::Array(vec![]), Tree::Object(OrderedMap::new())] {
        assert_eq!(Tree::parse(&tree.render().unwrap()).unwrap(), tree);
    }
}
