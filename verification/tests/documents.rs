use coreos_assembler::document::{
    duplicate, find, find_before, is_text, with_integers_as_text, Node,
};
use coreos_assembler::json::{read_json, write_json};
use coreos_assembler::yaml::{has_short_lines, read_yaml, MAX_LINE};

fn text(s: &str) -> Node {
    Node::Text(s.to_string())
}

#[test]
fn yaml_scalars_and_collections() {
    let doc = read_yaml("a: 1\nb: [x, y]\nc: ~\nd: true\ne: \"true\"\nf: 1.5\n").unwrap();
    let want = Node::Table(vec![
        (text("a"), Node::Integer("1".to_string())),
        (text("b"), Node::List(vec![text("x"), text("y")])),
        (text("c"), Node::Null),
        (text("d"), Node::Bool(true)),
        (text("e"), text("true")),
        (text("f"), Node::Number("1.5".to_string())),
    ]);
    assert_eq!(doc, want);
}

#[test]
fn yaml_block_sequence_and_nested_mapping() {
    let doc = read_yaml("packages:\n  - kernel systemd\n  - bash\ncheck-passwd:\n  type: file\n  filename: passwd\n").unwrap();
    let want = Node::Table(vec![
        (text("packages"), Node::List(vec![text("kernel systemd"), text("bash")])),
        (
            text("check-passwd"),
            Node::Table(vec![(text("type"), text("file")), (text("filename"), text("passwd"))]),
        ),
    ]);
    assert_eq!(doc, want);
}

#[test]
fn yaml_keeps_keys_that_are_no_text() {
    let doc = read_yaml("1: x\ntrue: y\n").unwrap();
    let want = Node::Table(vec![
        (Node::Integer("1".to_string()), text("x")),
        (Node::Bool(true), text("y")),
    ]);
    assert_eq!(doc, want);
}

#[test]
fn yaml_keeps_the_order_of_keys() {
    let doc = read_yaml("z: 1\na: 2\nm: 3\n").unwrap();
    match doc {
        Node::Table(entries) => {
            let keys: Vec<Node> = entries.into_iter().map(|e| e.0).collect();
            assert_eq!(keys, vec![text("z"), text("a"), text("m")]);
        }
        other => panic!("not a table: {:?}", other),
    }
}

#[test]
fn yaml_rejects_malformed_text() {
    assert!(read_yaml("a: [1, 2").is_err());
    assert!(read_yaml("a: b: c: d\n  - x").is_err());
    assert!(read_yaml("").is_err());
    assert!(read_yaml("---\na: 1\n---\nb: 2\n").is_err());
}

#[test]
fn yaml_error_carries_a_message() {
    match read_yaml("a: [1, 2") {
        Err(message) => assert!(!message.is_empty()),
        Ok(doc) => panic!("read as {:?}", doc),
    }
}

#[test]
fn yaml_lines_are_bounded() {
    assert_eq!(MAX_LINE, 200);
    let too_long = Err("a line of the manifest is longer than 200 bytes".to_string());
    assert_eq!(read_yaml(&format!("a: {}", "x".repeat(198))), too_long);
    assert_eq!(read_yaml(&format!("a: 1\nb: {}\nc: 2\n", "x".repeat(198))), too_long);
    assert_eq!(read_yaml(&"- ".repeat(20000)), too_long);
    assert_eq!(
        read_yaml(&format!("a: {}", "x".repeat(197))),
        Ok(Node::Table(vec![(text("a"), text(&"x".repeat(197)))]))
    );
}

#[test]
fn short_lines_are_counted_in_bytes_between_line_feeds() {
    assert!(has_short_lines(""));
    assert!(has_short_lines("\n\n\n"));
    assert!(has_short_lines(&"x".repeat(200)));
    assert!(!has_short_lines(&"x".repeat(201)));
    assert!(has_short_lines(&format!("{}\n{}\n", "x".repeat(200), "y".repeat(200))));
    assert!(!has_short_lines(&format!("{}\n{}", "x".repeat(10), "y".repeat(201))));
    // a character of two bytes counts twice
    assert!(has_short_lines(&"\u{e9}".repeat(100)));
    assert!(!has_short_lines(&"\u{e9}".repeat(101)));
    // a carriage return ends no line
    assert!(!has_short_lines(&format!("{}\r{}", "x".repeat(100), "y".repeat(100))));
}

#[test]
fn yaml_nesting_within_the_bound_is_read() {
    // mappings one column apart, as deep as a line is long
    let mut stairs = String::new();
    for i in 0..198 {
        stairs.push_str(&" ".repeat(i));
        stairs.push_str("k:\n");
    }
    // deeper than the reader of values goes, so an error, but an answer
    assert!(read_yaml(&stairs).is_err());
    let mut few = String::new();
    for i in 0..50 {
        few.push_str(&" ".repeat(i));
        few.push_str("k:\n");
    }
    assert!(read_yaml(&few).is_ok());
    assert!(read_yaml(&format!("{}a", "- ".repeat(99))).is_ok());
}

#[test]
fn json_scalars_and_collections() {
    let doc = read_json("{\"a\": [1, \"x\", null, false], \"b\": {\"c\": 2.5}, \"d\": -7}").unwrap();
    let want = Node::Table(vec![
        (
            text("a"),
            Node::List(vec![Node::Integer("1".to_string()), text("x"), Node::Null, Node::Bool(false)]),
        ),
        (text("b"), Node::Table(vec![(text("c"), Node::Number("2.5".to_string()))])),
        (text("d"), Node::Integer("-7".to_string())),
    ]);
    assert_eq!(doc, want);
}

#[test]
fn json_keeps_the_order_of_keys() {
    let doc = read_json("{\"z\": 1, \"a\": 2, \"m\": 3}").unwrap();
    match doc {
        Node::Table(entries) => {
            let keys: Vec<Node> = entries.into_iter().map(|e| e.0).collect();
            assert_eq!(keys, vec![text("z"), text("a"), text("m")]);
        }
        other => panic!("not a table: {:?}", other),
    }
}

#[test]
fn json_rejects_malformed_text() {
    assert!(read_json("{\"a\": 1").is_err());
    assert!(read_json("{a: 1}").is_err());
    assert!(read_json("").is_err());
    assert!(read_json("{\"a\": 1} trailing").is_err());
    match read_json("{\"a\": ") {
        Err(message) => assert!(!message.is_empty()),
        Ok(doc) => panic!("read as {:?}", doc),
    }
}

#[test]
fn json_text_of_a_table() {
    let doc = Node::Table(vec![
        (text("ref"), text("exampleos/x86_64/stable")),
        (text("repos"), Node::List(vec![])),
        (text("packages"), Node::List(vec![text("kernel"), text("bash")])),
        (text("selinux"), Node::Bool(true)),
        (text("gone"), Node::Null),
    ]);
    let want = "{\n  \"ref\": \"exampleos/x86_64/stable\",\n  \"repos\": [],\n  \"packages\": [\n    \"kernel\",\n    \"bash\"\n  ],\n  \"selinux\": true,\n  \"gone\": null\n}";
    assert_eq!(write_json(&doc), Some(want.to_string()));
}

#[test]
fn json_text_escapes_strings() {
    let doc = Node::List(vec![text("a\"b"), text("line\nbreak"), text("back\\slash")]);
    let want = "[\n  \"a\\\"b\",\n  \"line\\nbreak\",\n  \"back\\\\slash\"\n]";
    assert_eq!(write_json(&doc), Some(want.to_string()));
}

#[test]
fn json_text_is_read_back() {
    let doc = Node::Table(vec![
        (text("b"), Node::List(vec![text("x"), Node::Bool(false), Node::Null])),
        (text("a"), Node::Table(vec![(text("k"), text("v"))])),
    ]);
    let written = write_json(&doc).unwrap();
    assert_eq!(read_json(&written), Ok(doc));
}

#[test]
fn write_refuses_what_cannot_be_written() {
    assert_eq!(write_json(&Node::Number("1.5".to_string())), None);
    assert_eq!(write_json(&Node::Integer("1".to_string())), None);
    assert_eq!(
        write_json(&Node::List(vec![text("a"), Node::Number("2".to_string())])),
        None
    );
    assert_eq!(
        write_json(&Node::Table(vec![(Node::Bool(true), text("a"))])),
        None
    );
    assert_eq!(
        write_json(&Node::Table(vec![(text("k"), text("a")), (text("k"), text("b"))])),
        None
    );
    assert_eq!(
        write_json(&Node::Table(vec![(text("k"), Node::List(vec![Node::Number("0".to_string())]))])),
        None
    );
}

#[test]
fn numbers_are_whole_or_not() {
    let doc = read_yaml("[28, -3, 0x1C, 1.10, 28.0, 1e3, \"28\", 007]").unwrap();
    let want = Node::List(vec![
        Node::Integer("28".to_string()),
        Node::Integer("-3".to_string()),
        Node::Integer("28".to_string()),
        Node::Number("1.1".to_string()),
        Node::Number("28".to_string()),
        Node::Number("1000".to_string()),
        text("28"),
        text("007"),
    ]);
    assert_eq!(doc, want);
    let doc = read_json("[28, -3, 1.10, 28.0, 1e3, \"28\"]").unwrap();
    let want = Node::List(vec![
        Node::Integer("28".to_string()),
        Node::Integer("-3".to_string()),
        Node::Number("1.1".to_string()),
        Node::Number("28.0".to_string()),
        Node::Number("1000.0".to_string()),
        text("28"),
    ]);
    assert_eq!(doc, want);
}

#[test]
fn whole_numbers_are_taken_for_text_where_they_are_values() {
    let whole = |s: &str| Node::Integer(s.to_string());
    let doc = Node::Table(vec![
        (text("a"), whole("28")),
        (whole("7"), Node::List(vec![whole("1"), text("two"), Node::Number("1.5".to_string())])),
        (text("c"), Node::Table(vec![(whole("9"), whole("-4")), (text("n"), Node::Null)])),
        (text("d"), Node::Bool(true)),
    ]);
    let want = Node::Table(vec![
        (text("a"), text("28")),
        (whole("7"), Node::List(vec![text("1"), text("two"), Node::Number("1.5".to_string())])),
        (text("c"), Node::Table(vec![(whole("9"), text("-4")), (text("n"), Node::Null)])),
        (text("d"), Node::Bool(true)),
    ]);
    assert_eq!(with_integers_as_text(&doc), want);
    assert_eq!(with_integers_as_text(&whole("5")), text("5"));
    assert_eq!(with_integers_as_text(&want), want);
    assert_eq!(duplicate(&doc), doc);
}

#[test]
fn find_gives_the_first_entry_with_the_key() {
    let entries = vec![
        (text("a"), text("1")),
        (Node::Bool(true), text("2")),
        (text("b"), text("3")),
        (text("a"), text("4")),
    ];
    assert_eq!(find(&entries, "a"), Some(&text("1")));
    assert_eq!(find(&entries, "b"), Some(&text("3")));
    assert_eq!(find(&entries, "c"), None);
    assert_eq!(find(&entries, "true"), None);
    assert_eq!(find_before(&entries, 0, "a"), None);
    assert_eq!(find_before(&entries, 2, "b"), None);
    assert_eq!(find_before(&entries, 3, "b"), Some(2));
    assert_eq!(find_before(&entries, 4, "a"), Some(0));
}

#[test]
fn is_text_tells_texts_from_other_nodes() {
    assert!(is_text(&text("type"), "type"));
    assert!(!is_text(&text("type"), "types"));
    assert!(!is_text(&Node::Number("1".to_string()), "1"));
    assert!(!is_text(&Node::Null, ""));
}
