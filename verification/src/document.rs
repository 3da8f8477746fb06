//! Documents as trees: the shape that both dialects of a manifest are read into.
use crate::text::same_text;
use vstd::prelude::*;

verus! {

/// Mathematical model of a document.
pub enum Tree {
    Null,
    Bool(bool),
    /// A whole number, by its decimal text.
    Integer(Seq<char>),
    /// A number that is not whole, by its text.
    Number(Seq<char>),
    Text(Seq<char>),
    List(Seq<Tree>),
    /// Key and value pairs in document order.
    Table(Seq<(Tree, Tree)>),
}

/// A document in memory. Its view is the `Tree` with the same shape.
#[derive(Debug, PartialEq, Eq)]
pub enum Node {
    Null,
    Bool(bool),
    /// A whole number, by its decimal text.
    Integer(String),
    /// A number that is not whole, by its text.
    Number(String),
    Text(String),
    List(Vec<Node>),
    /// Key and value pairs in document order.
    Table(Vec<(Node, Node)>),
}

/// The tree with the shape of `node`.
pub open spec fn tree_of(node: Node) -> Tree
    decreases node,
{
    match node {
        Node::Null => Tree::Null,
        Node::Bool(b) => Tree::Bool(b),
        Node::Integer(s) => Tree::Integer(s@),
        Node::Number(s) => Tree::Number(s@),
        Node::Text(s) => Tree::Text(s@),
        Node::List(items) => Tree::List(
            Seq::new(
                items@.len(),
                |i: int|
                    if 0 <= i < items@.len() {
                        tree_of(items@[i])
                    } else {
                        Tree::Null
                    },
            ),
        ),
        Node::Table(entries) => Tree::Table(
            Seq::new(
                entries@.len(),
                |i: int|
                    if 0 <= i < entries@.len() {
                        (tree_of(entries@[i].0), tree_of(entries@[i].1))
                    } else {
                        (Tree::Null, Tree::Null)
                    },
            ),
        ),
    }
}

impl View for Node {
    type V = Tree;

    open spec fn view(&self) -> Tree {
        tree_of(*self)
    }
}

/// The views of the entries of a table.
pub open spec fn entries_view(entries: Seq<(Node, Node)>) -> Seq<(Tree, Tree)> {
    Seq::new(entries.len(), |i: int| (entries[i].0@, entries[i].1@))
}

/// The views of the items of a list.
pub open spec fn items_view(items: Seq<Node>) -> Seq<Tree> {
    Seq::new(items.len(), |i: int| items[i]@)
}

/// A tree that the structured dialect can write: it holds no number, and the
/// keys of each table are texts, no two of them the same.
pub open spec fn printable(t: Tree) -> bool
    decreases t,
{
    match t {
        Tree::Null | Tree::Bool(_) | Tree::Text(_) => true,
        Tree::Integer(_) | Tree::Number(_) => false,
        Tree::List(items) => forall|i: int| 0 <= i < items.len() ==> printable(#[trigger] items[i]),
        Tree::Table(entries) => {
            &&& forall|i: int|
                0 <= i < entries.len() ==> (#[trigger] entries[i]).0 is Text && printable(
                    entries[i].1,
                )
            &&& forall|i: int, j: int|
                0 <= i < j < entries.len() ==> (#[trigger] entries[i]).0 != (
                #[trigger] entries[j]).0
        },
    }
}

/// A list with an item that cannot be written cannot be written.
pub proof fn lemma_list_not_printable(items: Seq<Tree>, i: int)
    requires
        0 <= i < items.len(),
        !printable(items[i]),
    ensures
        !printable(Tree::List(items)),
{
    if printable(Tree::List(items)) {
        let t = Tree::List(items);
        assert(t->List_0 == items);
        assert(forall|k: int| 0 <= k < items.len() ==> printable(#[trigger] items[k]));
        assert(printable(items[i]));
    }
}

/// A table's view holds the views of its entries.
pub proof fn lemma_table_view(entries: Vec<(Node, Node)>)
    ensures
        Node::Table(entries)@ == Tree::Table(entries_view(entries@)),
{
    let made = Node::Table(entries)@->Table_0;
    assert(made.len() == entries@.len());
    assert forall|i: int| 0 <= i < made.len() implies made[i] == entries_view(entries@)[i] by {
        assert(made[i].0 == entries@[i].0@);
        assert(made[i].1 == entries@[i].1@);
    }
    assert(made =~= entries_view(entries@));
}

/// A list's view holds the views of its items.
pub proof fn lemma_list_view(items: Vec<Node>)
    ensures
        Node::List(items)@ == Tree::List(items_view(items@)),
{
    assert(Node::List(items)@->List_0 =~= items_view(items@));
}

/// The value of the first entry whose key is the text `key`.
pub open spec fn lookup(entries: Seq<(Tree, Tree)>, key: Seq<char>) -> Option<Tree>
    decreases entries.len(),
{
    if entries.len() == 0 {
        None
    } else if entries[0].0 == Tree::Text(key) {
        Some(entries[0].1)
    } else {
        lookup(entries.drop_first(), key)
    }
}

/// No entry before position `n` has the text `key` as its key.
pub open spec fn absent_before(entries: Seq<(Tree, Tree)>, key: Seq<char>, n: int) -> bool {
    forall|k: int| 0 <= k < n && k < entries.len() ==> (#[trigger] entries[k]).0 != Tree::Text(key)
}

/// `lookup` finds the entry at `i` when no earlier entry has the key.
pub proof fn lemma_lookup_found(entries: Seq<(Tree, Tree)>, key: Seq<char>, i: int)
    requires
        0 <= i < entries.len(),
        entries[i].0 == Tree::Text(key),
        absent_before(entries, key, i),
    ensures
        lookup(entries, key) == Some(entries[i].1),
    decreases i,
{
    if i > 0 {
        let rest = entries.drop_first();
        assert(entries[0].0 != Tree::Text(key));
        assert forall|k: int| 0 <= k < i - 1 && k < rest.len() implies (#[trigger] rest[k]).0
            != Tree::Text(key) by {
            assert(rest[k] == entries[k + 1]);
        }
        lemma_lookup_found(rest, key, i - 1);
    }
}

/// `lookup` finds nothing exactly when no entry has the key.
pub proof fn lemma_lookup_none(entries: Seq<(Tree, Tree)>, key: Seq<char>)
    ensures
        lookup(entries, key) is None <==> absent_before(entries, key, entries.len() as int),
    decreases entries.len(),
{
    if entries.len() > 0 {
        let rest = entries.drop_first();
        lemma_lookup_none(rest, key);
        if entries[0].0 != Tree::Text(key) {
            if absent_before(rest, key, rest.len() as int) {
                assert forall|k: int| 0 <= k < entries.len() implies (#[trigger] entries[k]).0
                    != Tree::Text(key) by {
                    if k > 0 {
                        assert(entries[k] == rest[k - 1]);
                    }
                }
            } else {
                let k = choose|k: int|
                    0 <= k < rest.len() && (#[trigger] rest[k]).0 == Tree::Text(key);
                assert(entries[k + 1] == rest[k]);
            }
        }
    }
}

/// Whether `node` is the text `key`.
pub fn is_text(node: &Node, key: &str) -> (b: bool)
    ensures
        b == (node@ == Tree::Text(key@)),
{
    match node {
        Node::Text(s) => same_text(s.as_str(), key),
        _ => false,
    }
}

/// The position of the first of the entries before `limit` whose key is the text `key`.
pub fn find_before(entries: &Vec<(Node, Node)>, limit: usize, key: &str) -> (r: Option<usize>)
    requires
        limit <= entries.len(),
    ensures
        match r {
            Some(i) => i < limit && lookup(entries_view(entries@).take(limit as int), key@) == Some(
                entries[i as int].1@,
            ) && entries[i as int].0@ == Tree::Text(key@),
            None => lookup(entries_view(entries@).take(limit as int), key@) is None,
        },
{
    let ghost es = entries_view(entries@).take(limit as int);
    let mut i: usize = 0;
    while i < limit
        invariant
            i <= limit <= entries.len(),
            es == entries_view(entries@).take(limit as int),
            absent_before(es, key@, i as int),
        decreases limit - i,
    {
        if is_text(&entries[i].0, key) {
            proof {
                lemma_lookup_found(es, key@, i as int);
            }
            return Some(i);
        }
        i += 1;
    }
    proof {
        lemma_lookup_none(es, key@);
    }
    None
}

/// The value of the first entry whose key is the text `key`.
pub fn find<'a>(entries: &'a Vec<(Node, Node)>, key: &str) -> (r: Option<&'a Node>)
    ensures
        match r {
            Some(n) => lookup(entries_view(entries@), key@) == Some(n@),
            None => lookup(entries_view(entries@), key@) is None,
        },
{
    proof {
        assert(entries_view(entries@).take(entries.len() as int) =~= entries_view(entries@));
    }
    match find_before(entries, entries.len(), key) {
        Some(i) => Some(&entries[i].1),
        None => None,
    }
}

/// Copies a document.
pub fn duplicate(node: &Node) -> (n: Node)
    ensures
        n@ == node@,
    decreases node,
{
    match node {
        Node::Null => Node::Null,
        Node::Bool(b) => Node::Bool(*b),
        Node::Integer(s) => Node::Integer(s.clone()),
        Node::Number(s) => Node::Number(s.clone()),
        Node::Text(s) => Node::Text(s.clone()),
        Node::List(items) => {
            proof {
                lemma_list_view(*items);
            }
            let mut out: Vec<Node> = Vec::new();
            let mut i: usize = 0;
            while i < items.len()
                invariant
                    i <= items.len(),
                    out.len() == i,
                    node == Node::List(*items),
                    forall|k: int| 0 <= k < i ==> (#[trigger] out[k])@ == items[k]@,
                decreases items.len() - i,
            {
                proof {
                    assert(decreases_to!(*node => node->List_0));
                    assert(decreases_to!(node->List_0 => node->List_0@));
                    assert(decreases_to!(node->List_0@ => node->List_0@[i as int]));
                }
                out.push(duplicate(&items[i]));
                i += 1;
            }
            proof {
                lemma_list_view(out);
                assert(items_view(out@) =~= items_view(items@));
            }
            Node::List(out)
        },
        Node::Table(entries) => {
            proof {
                lemma_table_view(*entries);
            }
            let mut out: Vec<(Node, Node)> = Vec::new();
            let mut i: usize = 0;
            while i < entries.len()
                invariant
                    i <= entries.len(),
                    out.len() == i,
                    node == Node::Table(*entries),
                    forall|k: int|
                        0 <= k < i ==> (#[trigger] out[k]).0@ == entries[k].0@ && out[k].1@
                            == entries[k].1@,
                decreases entries.len() - i,
            {
                proof {
                    assert(decreases_to!(*node => node->Table_0));
                    assert(decreases_to!(node->Table_0 => node->Table_0@));
                    assert(decreases_to!(node->Table_0@ => node->Table_0@[i as int]));
                    assert(decreases_to!(node->Table_0@[i as int] => node->Table_0@[i as int].0));
                    assert(decreases_to!(node->Table_0@[i as int] => node->Table_0@[i as int].1));
                }
                let key = duplicate(&entries[i].0);
                let value = duplicate(&entries[i].1);
                out.push((key, value));
                i += 1;
            }
            proof {
                lemma_table_view(out);
                assert(entries_view(out@) =~= entries_view(entries@));
            }
            Node::Table(out)
        },
    }
}

/// The document with every whole number that stands as a value taken for
/// its text. Keys are left as they are.
pub open spec fn integers_as_text(t: Tree) -> Tree
    decreases t,
{
    match t {
        Tree::Integer(s) => Tree::Text(s),
        Tree::List(items) => Tree::List(
            Seq::new(
                items.len(),
                |i: int|
                    if 0 <= i < items.len() {
                        integers_as_text(items[i])
                    } else {
                        Tree::Null
                    },
            ),
        ),
        Tree::Table(entries) => Tree::Table(
            Seq::new(
                entries.len(),
                |i: int|
                    if 0 <= i < entries.len() {
                        (entries[i].0, integers_as_text(entries[i].1))
                    } else {
                        (Tree::Null, Tree::Null)
                    },
            ),
        ),
        other => other,
    }
}

/// Takes every whole number that stands as a value for its text.
pub fn with_integers_as_text(node: &Node) -> (n: Node)
    ensures
        n@ == integers_as_text(node@),
    decreases node,
{
    match node {
        Node::Integer(s) => Node::Text(s.clone()),
        Node::List(items) => {
            proof {
                lemma_list_view(*items);
            }
            let mut out: Vec<Node> = Vec::new();
            let mut i: usize = 0;
            while i < items.len()
                invariant
                    i <= items.len(),
                    out.len() == i,
                    node == Node::List(*items),
                    forall|k: int|
                        0 <= k < i ==> (#[trigger] out[k])@ == integers_as_text(items[k]@),
                decreases items.len() - i,
            {
                proof {
                    assert(decreases_to!(*node => node->List_0));
                    assert(decreases_to!(node->List_0 => node->List_0@));
                    assert(decreases_to!(node->List_0@ => node->List_0@[i as int]));
                }
                out.push(with_integers_as_text(&items[i]));
                i += 1;
            }
            proof {
                lemma_list_view(out);
                assert(items_view(out@) =~= integers_as_text(node@)->List_0);
            }
            Node::List(out)
        },
        Node::Table(entries) => {
            proof {
                lemma_table_view(*entries);
            }
            let mut out: Vec<(Node, Node)> = Vec::new();
            let mut i: usize = 0;
            while i < entries.len()
                invariant
                    i <= entries.len(),
                    out.len() == i,
                    node == Node::Table(*entries),
                    forall|k: int|
                        0 <= k < i ==> (#[trigger] out[k]).0@ == entries[k].0@ && out[k].1@
                            == integers_as_text(entries[k].1@),
                decreases entries.len() - i,
            {
                proof {
                    assert(decreases_to!(*node => node->Table_0));
                    assert(decreases_to!(node->Table_0 => node->Table_0@));
                    assert(decreases_to!(node->Table_0@ => node->Table_0@[i as int]));
                    assert(decreases_to!(node->Table_0@[i as int] => node->Table_0@[i as int].1));
                }
                let key = duplicate(&entries[i].0);
                let value = with_integers_as_text(&entries[i].1);
                out.push((key, value));
                i += 1;
            }
            proof {
                lemma_table_view(out);
                assert(entries_view(out@) =~= integers_as_text(node@)->Table_0);
            }
            Node::Table(out)
        },
        other => duplicate(other),
    }
}

} // verus!
