//! The human-friendly dialect: YAML text read into document trees.
use crate::document::{entries_view, items_view, lemma_list_view, lemma_table_view, Node, Tree};
use vstd::prelude::*;

verus! {

/// `serde_yaml::Value`, of which the library sees `yaml_tree` and no more.
#[verifier::external_type_specification]
#[verifier::external_body]
pub struct ExYamlValue(serde_yaml::Value);

/// `serde_yaml::Error`, of which the library takes the message and no more.
#[verifier::external_type_specification]
#[verifier::external_body]
pub struct ExYamlError(serde_yaml::Error);

/// The tree that a YAML value holds.
pub uninterp spec fn yaml_tree(value: serde_yaml::Value) -> Tree;

/// The tree of the one document that `text` holds in YAML; none where `text`
/// is not one YAML document.
pub uninterp spec fn yaml_document(text: Seq<char>) -> Option<Tree>;

/// The longest line, in bytes, that a text in YAML may hold to be read.
pub const MAX_LINE: usize = 200;

/// The number of bytes between the last line feed before position `i` and
/// position `i`.
pub open spec fn run_len(bytes: Seq<u8>, i: int) -> nat
    decreases i,
{
    if i <= 0 || i > bytes.len() {
        0
    } else if bytes[i - 1] == 0x0A {
        0
    } else {
        1 + run_len(bytes, i - 1)
    }
}

/// No line of `bytes` is longer than `limit`: lines end at line feeds.
pub open spec fn lines_within(bytes: Seq<u8>, limit: nat) -> bool {
    forall|i: int| 0 <= i <= bytes.len() ==> #[trigger] run_len(bytes, i) <= limit
}

/// The text is one that the YAML reader takes: in UTF-8, none of its lines is
/// longer than `MAX_LINE` bytes.
pub open spec fn yaml_admits(text: Seq<char>) -> bool {
    lines_within(vstd::utf8::encode_utf8(text), MAX_LINE as nat)
}

/// One level of a YAML value: which variant it is, with what it holds.
enum YamlShape<'a> {
    Null,
    Bool(bool),
    /// A number by its `Display` text, with whether it is kept as a float.
    Number(String, bool),
    Text(String),
    List(&'a Vec<serde_yaml::Value>),
    Table(Vec<(&'a serde_yaml::Value, &'a serde_yaml::Value)>),
}

/// The trees of a sequence of YAML values.
spec fn yaml_trees(items: Seq<serde_yaml::Value>) -> Seq<Tree> {
    Seq::new(items.len(), |i: int| yaml_tree(items[i]))
}

/// The trees of the keys and values of a YAML mapping.
spec fn yaml_pairs(entries: Seq<(&serde_yaml::Value, &serde_yaml::Value)>) -> Seq<
    (Tree, Tree),
> {
    Seq::new(entries.len(), |i: int| (yaml_tree(*entries[i].0), yaml_tree(*entries[i].1)))
}

/// `serde_yaml::from_str` at the type `serde_yaml::Value`: the value of the one
/// document in `text`, or the error that says why `text` is not one. The
/// contract only names the outcome as `yaml_document` of the text.
///
/// The loader below the call recurses once for each collection that lies
/// within another, so the text must bound that nesting. A block collection
/// starts at a column greater than that of the one around it, and columns
/// start anew at each line feed, so block collections nest no deeper than
/// twice the longest line (a sequence may share the column of the mapping
/// entry it belongs to). Flow collections nest no deeper than 255, where the
/// scanner gives up. With lines of at most `MAX_LINE` bytes the recursion is
/// therefore at most 655 deep.
#[verifier::external_body]
fn yaml_from_str(text: &str) -> (r: Result<serde_yaml::Value, serde_yaml::Error>)
    requires
        yaml_admits(text@),
    ensures
        match r {
            Ok(v) => yaml_document(text@) == Some(yaml_tree(v)),
            Err(_) => yaml_document(text@) is None,
        },
{
    serde_yaml::from_str::<serde_yaml::Value>(text)
}

/// Tells the variants of `serde_yaml::Value` apart and hands out what the
/// variant holds: a number by its `Display` text and its `is_f64`, a sequence
/// as it is, a mapping as its pairs in the order of `Mapping::iter`. The
/// contract says that the tree of the value has this variant and, below it,
/// the trees of these parts; a number that is no float is a whole number.
#[verifier::external_body]
fn yaml_shape<'a>(value: &'a serde_yaml::Value) -> (s: YamlShape<'a>)
    ensures
        yaml_tree(*value) == match s {
            YamlShape::Null => Tree::Null,
            YamlShape::Bool(b) => Tree::Bool(b),
            YamlShape::Number(n, float) => if float {
                Tree::Number(n@)
            } else {
                Tree::Integer(n@)
            },
            YamlShape::Text(t) => Tree::Text(t@),
            YamlShape::List(items) => Tree::List(yaml_trees(items@)),
            YamlShape::Table(entries) => Tree::Table(yaml_pairs(entries@)),
        },
{
    match value {
        serde_yaml::Value::Null => YamlShape::Null,
        serde_yaml::Value::Bool(b) => YamlShape::Bool(*b),
        serde_yaml::Value::Number(n) => YamlShape::Number(n.to_string(), n.is_f64()),
        serde_yaml::Value::String(s) => YamlShape::Text(s.clone()),
        serde_yaml::Value::Sequence(items) => YamlShape::List(items),
        serde_yaml::Value::Mapping(entries) => YamlShape::Table(entries.iter().collect()),
    }
}

/// Copies a YAML value into a document.
fn node_of_yaml(value: &serde_yaml::Value) -> (n: Node)
    ensures
        n@ == yaml_tree(*value),
    decreases yaml_tree(*value),
{
    match yaml_shape(value) {
        YamlShape::Null => Node::Null,
        YamlShape::Bool(b) => Node::Bool(b),
        YamlShape::Number(n, float) => if float {
            Node::Number(n)
        } else {
            Node::Integer(n)
        },
        YamlShape::Text(t) => Node::Text(t),
        YamlShape::List(items) => {
            let mut out: Vec<Node> = Vec::new();
            let mut i: usize = 0;
            while i < items.len()
                invariant
                    i <= items.len(),
                    out.len() == i,
                    yaml_tree(*value) == Tree::List(yaml_trees(items@)),
                    forall|k: int| 0 <= k < i ==> (#[trigger] out[k])@ == yaml_tree(items[k]),
                decreases items.len() - i,
            {
                proof {
                    let trees = yaml_trees(items@);
                    assert(trees[i as int] == yaml_tree(items[i as int]));
                    let whole = yaml_tree(*value);
                    assert(decreases_to!(whole => whole->List_0));
                    assert(decreases_to!(whole->List_0 => whole->List_0[i as int]));
                }
                out.push(node_of_yaml(&items[i]));
                i += 1;
            }
            proof {
                lemma_list_view(out);
                assert(items_view(out@) =~= yaml_trees(items@));
            }
            Node::List(out)
        },
        YamlShape::Table(entries) => {
            let mut out: Vec<(Node, Node)> = Vec::new();
            let mut i: usize = 0;
            while i < entries.len()
                invariant
                    i <= entries.len(),
                    out.len() == i,
                    yaml_tree(*value) == Tree::Table(yaml_pairs(entries@)),
                    forall|k: int|
                        0 <= k < i ==> (#[trigger] out[k]).0@ == yaml_tree(*entries[k].0)
                            && out[k].1@ == yaml_tree(*entries[k].1),
                decreases entries.len() - i,
            {
                proof {
                    let pairs = yaml_pairs(entries@);
                    assert(pairs[i as int] == (
                        yaml_tree(*entries[i as int].0),
                        yaml_tree(*entries[i as int].1),
                    ));
                    let whole = yaml_tree(*value);
                    assert(decreases_to!(whole => whole->Table_0));
                    assert(decreases_to!(whole->Table_0 => whole->Table_0[i as int]));
                    assert(decreases_to!(whole->Table_0[i as int] => whole->Table_0[i as int].0));
                    assert(decreases_to!(whole->Table_0[i as int] => whole->Table_0[i as int].1));
                }
                let key = node_of_yaml(entries[i].0);
                let item = node_of_yaml(entries[i].1);
                out.push((key, item));
                i += 1;
            }
            proof {
                lemma_table_view(out);
                assert(entries_view(out@) =~= yaml_pairs(entries@));
            }
            Node::Table(out)
        },
    }
}

/// Whether no line of `text` is longer than `MAX_LINE` bytes.
pub fn has_short_lines(text: &str) -> (b: bool)
    ensures
        b == yaml_admits(text@),
{
    let bytes = text.as_bytes();
    let n = bytes.len();
    let mut run: usize = 0;
    let mut i: usize = 0;
    while i < n
        invariant
            i <= n,
            n == bytes@.len(),
            bytes@ == vstd::utf8::encode_utf8(text@),
            run == run_len(bytes@, i as int),
            forall|k: int| 0 <= k <= i ==> #[trigger] run_len(bytes@, k) <= MAX_LINE,
        decreases n - i,
    {
        if bytes[i] == 0x0A {
            run = 0;
        } else {
            if run >= MAX_LINE {
                assert(run_len(bytes@, i + 1) > MAX_LINE);
                return false;
            }
            run += 1;
        }
        i += 1;
    }
    true
}

/// The message for a text with a line that is too long.
pub open spec fn line_too_long() -> Seq<char> {
    "a line of the manifest is longer than 200 bytes"@
}

/// Reads the one YAML document that `text` holds. A text with a line of more
/// than `MAX_LINE` bytes is not read. The error is `line_too_long` for such a
/// text, and else the parser's message.
pub fn read_yaml(text: &str) -> (r: Result<Node, String>)
    ensures
        match r {
            Ok(n) => yaml_admits(text@) && yaml_document(text@) == Some(n@),
            Err(message) => if yaml_admits(text@) {
                yaml_document(text@) is None
            } else {
                message@ == line_too_long()
            },
        },
{
    if !has_short_lines(text) {
        return Err("a line of the manifest is longer than 200 bytes".to_owned());
    }
    match yaml_from_str(text) {
        Ok(value) => Ok(node_of_yaml(&value)),
        Err(e) => Err(e.to_string()),
    }
}

} // verus!
