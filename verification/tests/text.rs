use coreos_assembler::text::{ends_with, join, same_text, split_words, whitespace};

#[test]
fn whitespace_agrees_with_std_on_every_char() {
    let mut code: u32 = 0;
    while code <= 0x10FFFF {
        if let Some(c) = char::from_u32(code) {
            assert_eq!(whitespace(c), c.is_whitespace(), "U+{:04X}", code);
        }
        code += 1;
    }
}

#[test]
fn whitespace_on_named_characters() {
    assert!(whitespace(' '));
    assert!(whitespace('\t'));
    assert!(whitespace('\n'));
    assert!(whitespace('\u{A0}'));
    assert!(whitespace('\u{3000}'));
    assert!(!whitespace('a'));
    assert!(!whitespace('-'));
    assert!(!whitespace('\u{200B}'));
}

#[test]
fn split_words_on_plain_input() {
    assert_eq!(split_words("kernel systemd"), vec!["kernel".to_string(), "systemd".to_string()]);
    assert_eq!(split_words("bash"), vec!["bash".to_string()]);
}

#[test]
fn split_words_drops_empty_tokens() {
    assert_eq!(split_words(""), Vec::<String>::new());
    assert_eq!(split_words("   \t\n"), Vec::<String>::new());
    assert_eq!(
        split_words("  a \t b\n\nc  "),
        vec!["a".to_string(), "b".to_string(), "c".to_string()]
    );
}

#[test]
fn split_words_agrees_with_std() {
    let samples = [
        "",
        " ",
        "a",
        " a",
        "a ",
        "a b",
        "a  b",
        "\u{2003}wide\u{2003}space\u{3000}",
        "tab\tnew\nline\rret",
        "caf\u{e9} na\u{ef}ve \u{1F980}",
        "one\u{85}two\u{a0}three",
    ];
    for s in samples.iter() {
        let want: Vec<String> = s.split_whitespace().map(|w| w.to_string()).collect();
        assert_eq!(split_words(s), want, "{:?}", s);
    }
}

#[test]
fn ends_with_suffixes() {
    assert!(ends_with("m.yaml", ".yaml"));
    assert!(ends_with(".yaml", ".yaml"));
    assert!(ends_with("anything", ""));
    assert!(!ends_with("yaml", ".yaml"));
    assert!(!ends_with("m.yaml.bak", ".yaml"));
    assert!(!ends_with("m.YAML", ".yaml"));
    assert!(ends_with("caf\u{e9}.yaml", ".yaml"));
}

#[test]
fn same_text_compares_characters() {
    assert!(same_text("", ""));
    assert!(same_text("ref", "ref"));
    assert!(!same_text("ref", "refs"));
    assert!(!same_text("ref", "reF"));
}

#[test]
fn join_concatenates() {
    assert_eq!(join("unknown field: ", "foo"), "unknown field: foo");
    assert_eq!(join("", ""), "");
}
