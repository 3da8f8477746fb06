//! The structured dialect: JSON text read into document trees and written from them.
use crate::document::{
    entries_view, find_before, items_view, lemma_list_not_printable, lemma_list_view,
    lemma_lookup_none, lemma_table_view, printable, Node, Tree,
};
use vstd::prelude::*;

verus! {

/// `serde_json::Value`, of which the library sees `json_tree` and no more.
#[verifier::external_type_specification]
#[verifier::external_body]
pub struct ExJsonValue(serde_json::Value);

/// `serde_json::Error`, of which the library takes the message and no more.
#[verifier::external_type_specification]
#[verifier::external_body]
pub struct ExJsonError(serde_json::Error);

/// The tree that a JSON value holds.
pub uninterp spec fn json_tree(value: serde_json::Value) -> Tree;

/// The tree of the JSON document that `text` is; none where `text` is not one.
pub uninterp spec fn json_document(text: Seq<char>) -> Option<Tree>;

/// The indented JSON text of a tree.
pub uninterp spec fn json_pretty(tree: Tree) -> Seq<char>;

/// One level of a JSON value: which variant it is, with what it holds.
enum JsonShape<'a> {
    Null,
    Bool(bool),
    /// A number by its `Display` text, with whether it is kept as a float.
    Number(String, bool),
    Text(String),
    List(&'a Vec<serde_json::Value>),
    Table(Vec<(&'a String, &'a serde_json::Value)>),
}

/// The parts of which one level of a JSON value is made.
enum JsonParts {
    Null,
    Bool(bool),
    Text(String),
    List(Vec<serde_json::Value>),
    Table(Vec<(String, serde_json::Value)>),
}

/// The trees of a sequence of JSON values.
spec fn json_trees(items: Seq<serde_json::Value>) -> Seq<Tree> {
    Seq::new(items.len(), |i: int| json_tree(items[i]))
}

/// The trees of the keys and values of a JSON object, seen by reference.
spec fn json_pairs(entries: Seq<(&String, &serde_json::Value)>) -> Seq<(Tree, Tree)> {
    Seq::new(entries.len(), |i: int| (Tree::Text(entries[i].0@), json_tree(*entries[i].1)))
}

/// The trees of the keys and values of which a JSON object is made.
spec fn json_members(entries: Seq<(String, serde_json::Value)>) -> Seq<(Tree, Tree)> {
    Seq::new(entries.len(), |i: int| (Tree::Text(entries[i].0@), json_tree(entries[i].1)))
}

/// No two of the entries have the same key.
spec fn distinct_keys(entries: Seq<(String, serde_json::Value)>) -> bool {
    forall|i: int, j: int|
        0 <= i < j < entries.len() ==> (#[trigger] entries[i]).0@ != (#[trigger] entries[j]).0@
}

/// The tree of the value that is made of `parts`.
spec fn parts_tree(parts: JsonParts) -> Tree {
    match parts {
        JsonParts::Null => Tree::Null,
        JsonParts::Bool(b) => Tree::Bool(b),
        JsonParts::Text(t) => Tree::Text(t@),
        JsonParts::List(items) => Tree::List(json_trees(items@)),
        JsonParts::Table(entries) => Tree::Table(json_members(entries@)),
    }
}

/// `serde_json::from_str` at the type `serde_json::Value`: the value of the
/// document that `text` is, or the error that says why it is none. The contract
/// only names the outcome as `json_document` of the text.
#[verifier::external_body]
fn json_from_str(text: &str) -> (r: Result<serde_json::Value, serde_json::Error>)
    ensures
        match r {
            Ok(v) => json_document(text@) == Some(json_tree(v)),
            Err(_) => json_document(text@) is None,
        },
{
    serde_json::from_str::<serde_json::Value>(text)
}

/// Tells the variants of `serde_json::Value` apart and hands out what the
/// variant holds: a number by its `Display` text and its `is_f64`, an array as
/// it is, an object as its pairs in the order of `Map::iter`. The contract
/// says that the tree of the value has this variant and, below it, the trees
/// of these parts; a number that is no float is a whole number.
#[verifier::external_body]
fn json_shape<'a>(value: &'a serde_json::Value) -> (s: JsonShape<'a>)
    ensures
        json_tree(*value) == match s {
            JsonShape::Null => Tree::Null,
            JsonShape::Bool(b) => Tree::Bool(b),
            JsonShape::Number(n, float) => if float {
                Tree::Number(n@)
            } else {
                Tree::Integer(n@)
            },
            JsonShape::Text(t) => Tree::Text(t@),
            JsonShape::List(items) => Tree::List(json_trees(items@)),
            JsonShape::Table(entries) => Tree::Table(json_pairs(entries@)),
        },
{
    match value {
        serde_json::Value::Null => JsonShape::Null,
        serde_json::Value::Bool(b) => JsonShape::Bool(*b),
        serde_json::Value::Number(n) => JsonShape::Number(n.to_string(), n.is_f64()),
        serde_json::Value::String(s) => JsonShape::Text(s.clone()),
        serde_json::Value::Array(items) => JsonShape::List(items),
        serde_json::Value::Object(entries) => JsonShape::Table(entries.iter().collect()),
    }
}

/// Makes the `serde_json::Value` of the variant that `parts` names, an object
/// by collecting the pairs into a `serde_json::Map`, which keeps their order
/// (the crate is built with `preserve_order`). The keys of an object must
/// differ, since the map keeps one value per key. The contract says that the
/// tree of the value is that of the parts.
#[verifier::external_body]
fn json_build(parts: JsonParts) -> (v: serde_json::Value)
    requires
        parts matches JsonParts::Table(entries) ==> distinct_keys(entries@),
    ensures
        json_tree(v) == parts_tree(parts),
{
    match parts {
        JsonParts::Null => serde_json::Value::Null,
        JsonParts::Bool(b) => serde_json::Value::Bool(b),
        JsonParts::Text(t) => serde_json::Value::String(t),
        JsonParts::List(items) => serde_json::Value::Array(items),
        JsonParts::Table(entries) => serde_json::Value::Object(entries.into_iter().collect()),
    }
}

/// `serde_json::to_string_pretty` on a `serde_json::Value`: its indented text.
/// The call does not fail on a value: it writes into memory, the keys of an
/// object are strings, and a number of a value is finite. The contract
/// promises that, and names the text as `json_pretty` of the value's tree.
#[verifier::external_body]
fn json_to_string_pretty(value: &serde_json::Value) -> (r: Result<String, serde_json::Error>)
    ensures
        r is Ok,
        r->Ok_0@ == json_pretty(json_tree(*value)),
{
    serde_json::to_string_pretty(value)
}

/// Copies a JSON value into a document.
fn node_of_json(value: &serde_json::Value) -> (n: Node)
    ensures
        n@ == json_tree(*value),
    decreases json_tree(*value),
{
    match json_shape(value) {
        JsonShape::Null => Node::Null,
        JsonShape::Bool(b) => Node::Bool(b),
        JsonShape::Number(n, float) => if float {
            Node::Number(n)
        } else {
            Node::Integer(n)
        },
        JsonShape::Text(t) => Node::Text(t),
        JsonShape::List(items) => {
            let mut out: Vec<Node> = Vec::new();
            let mut i: usize = 0;
            while i < items.len()
                invariant
                    i <= items.len(),
                    out.len() == i,
                    json_tree(*value) == Tree::List(json_trees(items@)),
                    forall|k: int| 0 <= k < i ==> (#[trigger] out[k])@ == json_tree(items[k]),
                decreases items.len() - i,
            {
                proof {
                    let whole = json_tree(*value);
                    assert(json_trees(items@)[i as int] == json_tree(items[i as int]));
                    assert(decreases_to!(whole => whole->List_0));
                    assert(decreases_to!(whole->List_0 => whole->List_0[i as int]));
                }
                out.push(node_of_json(&items[i]));
                i += 1;
            }
            proof {
                lemma_list_view(out);
                assert(items_view(out@) =~= json_trees(items@));
            }
            Node::List(out)
        },
        JsonShape::Table(entries) => {
            let mut out: Vec<(Node, Node)> = Vec::new();
            let mut i: usize = 0;
            while i < entries.len()
                invariant
                    i <= entries.len(),
                    out.len() == i,
                    json_tree(*value) == Tree::Table(json_pairs(entries@)),
                    forall|k: int|
                        0 <= k < i ==> (#[trigger] out[k]).0@ == Tree::Text(entries[k].0@)
                            && out[k].1@ == json_tree(*entries[k].1),
                decreases entries.len() - i,
            {
                proof {
                    let whole = json_tree(*value);
                    assert(json_pairs(entries@)[i as int] == (
                        Tree::Text(entries[i as int].0@),
                        json_tree(*entries[i as int].1),
                    ));
                    assert(decreases_to!(whole => whole->Table_0));
                    assert(decreases_to!(whole->Table_0 => whole->Table_0[i as int]));
                    assert(decreases_to!(whole->Table_0[i as int] => whole->Table_0[i as int].1));
                }
                let item = node_of_json(entries[i].1);
                out.push((Node::Text(entries[i].0.clone()), item));
                i += 1;
            }
            proof {
                lemma_table_view(out);
                assert(entries_view(out@) =~= json_pairs(entries@));
            }
            Node::Table(out)
        },
    }
}

/// Copies a document into a JSON value; none where the document is not
/// `printable`.
fn json_of_node(node: &Node) -> (r: Option<serde_json::Value>)
    ensures
        match r {
            Some(v) => printable(node@) && json_tree(v) == node@,
            None => !printable(node@),
        },
    decreases node,
{
    match node {
        Node::Null => Some(json_build(JsonParts::Null)),
        Node::Bool(b) => Some(json_build(JsonParts::Bool(*b))),
        Node::Integer(_) | Node::Number(_) => None,
        Node::Text(t) => Some(json_build(JsonParts::Text(t.clone()))),
        Node::List(items) => {
            proof {
                lemma_list_view(*items);
            }
            let ghost trees = items_view(items@);
            let mut out: Vec<serde_json::Value> = Vec::new();
            let mut i: usize = 0;
            while i < items.len()
                invariant
                    i <= items.len(),
                    out.len() == i,
                    node == Node::List(*items),
                    trees == items_view(items@),
                    node@ == Tree::List(trees),
                    forall|k: int|
                        0 <= k < i ==> printable(#[trigger] trees[k]) && json_tree(out[k])
                            == trees[k],
                decreases items.len() - i,
            {
                proof {
                    assert(decreases_to!(*node => node->List_0));
                    assert(decreases_to!(node->List_0 => node->List_0@));
                    assert(decreases_to!(node->List_0@ => node->List_0@[i as int]));
                }
                match json_of_node(&items[i]) {
                    Some(v) => {
                        out.push(v);
                    },
                    None => {
                        proof {
                            lemma_list_not_printable(trees, i as int);
                        }
                        return None;
                    },
                }
                i += 1;
            }
            let v = json_build(JsonParts::List(out));
            proof {
                assert(json_trees(out@) =~= trees);
            }
            Some(v)
        },
        Node::Table(entries) => {
            proof {
                lemma_table_view(*entries);
            }
            let ghost trees = entries_view(entries@);
            let mut out: Vec<(String, serde_json::Value)> = Vec::new();
            let mut i: usize = 0;
            while i < entries.len()
                invariant
                    i <= entries.len(),
                    out.len() == i,
                    node == Node::Table(*entries),
                    trees == entries_view(entries@),
                    node@ == Tree::Table(trees),
                    forall|k: int|
                        0 <= k < i ==> (#[trigger] trees[k]).0 == Tree::Text(out[k].0@)
                            && printable(trees[k].1) && json_tree(out[k].1) == trees[k].1,
                    forall|j: int, k: int|
                        0 <= j < k < i ==> (#[trigger] trees[j]).0 != (#[trigger] trees[k]).0,
                decreases entries.len() - i,
            {
                proof {
                    assert(decreases_to!(*node => node->Table_0));
                    assert(decreases_to!(node->Table_0 => node->Table_0@));
                    assert(decreases_to!(node->Table_0@ => node->Table_0@[i as int]));
                    assert(decreases_to!(node->Table_0@[i as int] => node->Table_0@[i as int].1));
                }
                let key = match &entries[i].0 {
                    Node::Text(key) => key,
                    _ => {
                        assert(!(trees[i as int].0 is Text));
                        return None;
                    },
                };
                match find_before(entries, i, key.as_str()) {
                    Some(j) => {
                        assert(trees[j as int].0 == trees[i as int].0);
                        return None;
                    },
                    None => {
                        proof {
                            let before = trees.take(i as int);
                            lemma_lookup_none(before, key@);
                            assert forall|j: int| 0 <= j < i implies (#[trigger] trees[j]).0
                                != trees[i as int].0 by {
                                assert(before[j] == trees[j]);
                            }
                        }
                    },
                }
                match json_of_node(&entries[i].1) {
                    Some(v) => {
                        out.push((key.clone(), v));
                    },
                    None => {
                        assert(!printable(trees[i as int].1));
                        return None;
                    },
                }
                i += 1;
            }
            proof {
                assert forall|j: int, k: int| 0 <= j < k < out.len() implies (#[trigger] out[j]).0@
                    != (#[trigger] out[k]).0@ by {
                    assert(trees[j].0 != trees[k].0);
                }
                assert(json_members(out@) =~= trees);
            }
            Some(json_build(JsonParts::Table(out)))
        },
    }
}

/// Reads the JSON document that `text` is. The error is the parser's message.
pub fn read_json(text: &str) -> (r: Result<Node, String>)
    ensures
        match r {
            Ok(n) => json_document(text@) == Some(n@),
            Err(_) => json_document(text@) is None,
        },
{
    match json_from_str(text) {
        Ok(value) => Ok(node_of_json(&value)),
        Err(e) => Err(e.to_string()),
    }
}

/// Writes a document as indented JSON text; none where the document is not
/// `printable`.
pub fn write_json(node: &Node) -> (r: Option<String>)
    ensures
        match r {
            Some(s) => printable(node@) && s@ == json_pretty(node@),
            None => !printable(node@),
        },
{
    match json_of_node(node) {
        Some(value) => match json_to_string_pretty(&value) {
            Ok(s) => Some(s),
            Err(_) => None,
        },
        None => None,
    }
}

} // verus!
