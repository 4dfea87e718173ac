use convertor::codec::parse;
use convertor::codec::render;
use convertor::text::join;
use convertor::text::str_eq;
use convertor::yaml::find;
use convertor::yaml::insert;
use convertor::yaml::Node;
use serde_yaml::value::Tag;
use serde_yaml::Number;

fn text(s: &str) -> Node {
    Node::String(s.to_string())
}

#[test]
fn parsing_gives_the_document_variant_by_variant() {
    let node = parse("a: 1\nb: [x, true, null, 2.5]\nc:\n  d: !tag e\n7: seven\n")
        .expect("the text is YAML");
    assert_eq!(
        node,
        Node::Mapping(vec![
            (text("a"), Node::Number(Number::from(1u64))),
            (
                text("b"),
                Node::Sequence(vec![
                    text("x"),
                    Node::Bool(true),
                    Node::Null,
                    Node::Number(Number::from(2.5f64)),
                ])
            ),
            (
                text("c"),
                Node::Mapping(vec![(
                    text("d"),
                    Node::Tagged(Tag::new("tag"), Box::new(text("e")))
                )])
            ),
            (Node::Number(Number::from(7u64)), text("seven")),
        ])
    );
    assert_eq!(parse("just text"), Some(text("just text")));
    assert_eq!(parse(""), Some(Node::Null));
}

#[test]
fn parsing_refuses_what_is_no_yaml() {
    assert_eq!(parse("a: [1, 2"), None);
    assert_eq!(parse("a: 1\na: 2\n"), None);
    assert_eq!(parse("a: 1\n---\nb: 2\n"), None);
    assert_eq!(parse("\"open"), None);
}

#[test]
fn rendering_writes_the_document() {
    let node = Node::Mapping(vec![
        (text("name"), text("demo")),
        (text("items"), Node::Sequence(vec![text("a"), Node::Number(Number::from(3u64))])),
        (text("flag"), Node::Bool(false)),
        (text("none"), Node::Null),
    ]);
    assert_eq!(
        render(&node),
        Some("name: demo\nitems:\n- a\n- 3\nflag: false\nnone: null\n".to_string())
    );
    assert_eq!(render(&text("3.9")), Some("'3.9'\n".to_string()));
}

#[test]
fn what_is_rendered_parses_back() {
    let node = Node::Mapping(vec![
        (text("version"), text("3.9")),
        (
            text("services"),
            Node::Mapping(vec![
                (text("b"), Node::Sequence(vec![text("-port"), text("50006"), text("")])),
                (text("a"), Node::Tagged(Tag::new("t"), Box::new(text("x: y")))),
            ]),
        ),
    ]);
    let written = render(&node).expect("the document is written");
    assert_eq!(parse(&written), Some(node));
}

#[test]
fn lookups_see_through_tags_and_match_plain_string_keys_only() {
    let node = parse("!outer\na: !inner b\n1: one\n!k c: d\ne: [f]\n").expect("the text is YAML");
    assert_eq!(node.get("a").and_then(|v| v.as_str()), Some("b"));
    assert_eq!(node.get("a"), Some(&Node::Tagged(Tag::new("inner"), Box::new(text("b")))));
    assert_eq!(node.get("1"), None);
    assert_eq!(node.get("c"), None);
    assert_eq!(node.get("missing"), None);
    assert_eq!(node.get("e").and_then(|v| v.as_sequence()), Some(&vec![text("f")]));
    assert_eq!(node.as_mapping().map(|m| m.len()), Some(4));
    assert_eq!(node.untag().as_str(), None);
    assert_eq!(node.as_sequence(), None);
    assert_eq!(text("s").get("a"), None);
    assert_eq!(text("s").as_mapping(), None);
    assert_eq!(text("s").as_str(), Some("s"));
    assert_eq!(Node::Null.as_str(), None);
    let nested = Node::Tagged(
        Tag::new("a"),
        Box::new(Node::Tagged(Tag::new("b"), Box::new(text("deep")))),
    );
    assert_eq!(nested.untag(), &text("deep"));
    assert_eq!(nested.as_str(), Some("deep"));
}

#[test]
fn constructors_hold_what_they_are_given() {
    assert_eq!(Node::string("a".to_string()), text("a"));
    assert_eq!(Node::sequence(vec![text("a")]), Node::Sequence(vec![text("a")]));
    assert_eq!(
        Node::mapping(vec![(text("k"), Node::Null)]),
        Node::Mapping(vec![(text("k"), Node::Null)])
    );
}

#[test]
fn find_gives_the_first_place_of_a_key() {
    let entries = vec![
        (Node::Number(Number::from(1u64)), text("n")),
        (text("a"), text("first")),
        (text("b"), text("second")),
        (text("a"), text("third")),
    ];
    assert_eq!(find(&entries, "a"), Some(1));
    assert_eq!(find(&entries, "b"), Some(2));
    assert_eq!(find(&entries, "1"), None);
    assert_eq!(find(&entries, ""), None);
    assert_eq!(find(&Vec::new(), "a"), None);
}

#[test]
fn insert_replaces_in_place_or_appends() {
    let mut entries = vec![(text("a"), text("1")), (text("b"), text("2"))];
    insert(&mut entries, "c".to_string(), text("3"));
    assert_eq!(
        entries,
        vec![(text("a"), text("1")), (text("b"), text("2")), (text("c"), text("3"))]
    );
    insert(&mut entries, "a".to_string(), text("4"));
    assert_eq!(
        entries,
        vec![(text("a"), text("4")), (text("b"), text("2")), (text("c"), text("3"))]
    );
    let node = Node::Mapping(entries);
    assert_eq!(node.get("a"), Some(&text("4")));
}

#[test]
fn strings_compare_and_join_by_their_characters() {
    assert!(str_eq("", ""));
    assert!(str_eq("type", "type"));
    assert!(str_eq("héllo ✓", "héllo ✓"));
    assert!(!str_eq("type", "typo"));
    assert!(!str_eq("type", "types"));
    assert!(!str_eq("", "a"));
    assert_eq!(join("service:", "web"), "service:web");
    assert_eq!(join("", ""), "");
    assert_eq!(join("é", "✓"), "é✓");
}

#[test]
fn lookups_agree_with_serde_yaml() {
    let documents = [
        "resources:\n  a:\n    type: x\n  b: [1, 2]\n",
        "!tagged\ntype: !t azure\nproperties: {template: {containers: [{name: web}]}}\n",
        "- type: x\n- properties\n",
        "type: 5\n1: one\ntrue: yes\n~: none\n",
        "plain text",
        "",
    ];
    let keys = ["resources", "type", "properties", "a", "1", "true", "~", ""];
    for text in documents {
        let value: serde_yaml::Value = serde_yaml::from_str(text).expect("the text is YAML");
        let node = parse(text).expect("the text is YAML");
        assert_eq!(node.as_str(), value.as_str());
        assert_eq!(node.as_sequence().map(|s| s.len()), value.as_sequence().map(|s| s.len()));
        assert_eq!(node.as_mapping().map(|m| m.len()), value.as_mapping().map(|m| m.len()));
        for key in keys {
            let mine = node.get(key);
            let theirs = value.get(key);
            assert_eq!(mine.is_some(), theirs.is_some());
            assert_eq!(mine.and_then(|n| n.as_str()), theirs.and_then(|v| v.as_str()));
            assert_eq!(
                mine.and_then(|n| n.as_sequence()).map(|s| s.len()),
                theirs.and_then(|v| v.as_sequence()).map(|s| s.len())
            );
        }
    }
}
