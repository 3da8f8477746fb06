//! The values that the fields of a manifest take, read from and written to trees.
use crate::document::{
    entries_view, find, find_before, is_text, items_view, lemma_list_view, lemma_table_view, lookup,
    Node, Tree,
};
use crate::schema::Kind;
use crate::treefile::{
    check_view, lemma_boot_tag_round_trip, lemma_check_tag_round_trip, BootLocation, CheckPasswd,
    CheckPasswdType, CheckPasswdView,
};
use vstd::prelude::*;

verus! {

/// The text that `t` is, if it is one. A scalar that a reader has taken for a
/// number, a boolean or null is no text.
pub open spec fn text_of(t: Tree) -> Option<Seq<char>> {
    match t {
        Tree::Text(s) => Some(s),
        _ => None,
    }
}

/// The boolean that `t` is, if it is one.
pub open spec fn flag_of(t: Tree) -> Option<bool> {
    match t {
        Tree::Bool(b) => Some(b),
        _ => None,
    }
}

/// The list of texts that `t` is, if it is one.
pub open spec fn text_list_of(t: Tree) -> Option<Seq<Seq<char>>> {
    match t {
        Tree::List(items) => if forall|i: int|
            0 <= i < items.len() ==> text_of(#[trigger] items[i]) is Some {
            Some(Seq::new(items.len(), |i: int| text_of(items[i])->0))
        } else {
            None
        },
        _ => None,
    }
}

/// The list of lists of texts that `t` is, if it is one.
pub open spec fn text_lists_of(t: Tree) -> Option<Seq<Seq<Seq<char>>>> {
    match t {
        Tree::List(items) => if forall|i: int|
            0 <= i < items.len() ==> text_list_of(#[trigger] items[i]) is Some {
            Some(Seq::new(items.len(), |i: int| text_list_of(items[i])->0))
        } else {
            None
        },
        _ => None,
    }
}

/// The boot location that `t` names, if it names one.
pub open spec fn boot_of(t: Tree) -> Option<BootLocation> {
    match t {
        Tree::Text(tag) => BootLocation::tagged(tag),
        _ => None,
    }
}

/// The text of a key; empty where the key is no text.
pub open spec fn key_text(t: Tree) -> Seq<char> {
    match t {
        Tree::Text(s) => s,
        _ => Seq::empty(),
    }
}

/// Entry `i` of the table of a check has one of the two keys of a check, and no
/// entry before it has the same key.
pub open spec fn check_key_ok(entries: Seq<(Tree, Tree)>, i: int) -> bool {
    &&& entries[i].0 == Tree::Text("type"@) || entries[i].0 == Tree::Text("filename"@)
    &&& lookup(entries.take(i), key_text(entries[i].0)) is None
}

/// The check that `t` describes, if it describes one: a table with the kind of
/// check under `type`, optionally a text or null under `filename`, and nothing else.
pub open spec fn check_of(t: Tree) -> Option<CheckPasswdView> {
    match t {
        Tree::Table(entries) => if forall|i: int|
            0 <= i < entries.len() ==> #[trigger] check_key_ok(entries, i) {
            match lookup(entries, "type"@) {
                Some(Tree::Text(tag)) => match CheckPasswdType::tagged(tag) {
                    Some(variant) => match lookup(entries, "filename"@) {
                        None | Some(Tree::Null) => Some(
                            CheckPasswdView { variant, filename: None },
                        ),
                        Some(Tree::Text(f)) => Some(CheckPasswdView { variant, filename: Some(f) }),
                        _ => None,
                    },
                    None => None,
                },
                _ => None,
            }
        } else {
            None
        },
        _ => None,
    }
}

/// `t` is a value of kind `kind`.
pub open spec fn fits(kind: Kind, t: Tree) -> bool {
    match kind {
        Kind::Text => text_of(t) is Some,
        Kind::Flag => flag_of(t) is Some,
        Kind::TextList => text_list_of(t) is Some,
        Kind::TextLists => text_lists_of(t) is Some,
        Kind::Boot => boot_of(t) is Some,
        Kind::Check => check_of(t) is Some,
    }
}

/// The tree of a list of texts.
pub open spec fn text_list_tree(list: Seq<Seq<char>>) -> Tree {
    Tree::List(Seq::new(list.len(), |i: int| Tree::Text(list[i])))
}

/// The tree of a list of lists of texts.
pub open spec fn text_lists_tree(lists: Seq<Seq<Seq<char>>>) -> Tree {
    Tree::List(Seq::new(lists.len(), |i: int| text_list_tree(lists[i])))
}

/// The tree of a boot location: its tag.
pub open spec fn boot_tree(b: BootLocation) -> Tree {
    Tree::Text(b.spec_tag())
}

/// The tree of a check: its kind under `type`, then its file under `filename`
/// where it has one.
pub open spec fn check_tree(c: CheckPasswdView) -> Tree {
    let kind = (Tree::Text("type"@), Tree::Text(c.variant.spec_tag()));
    match c.filename {
        Some(f) => Tree::Table(seq![kind, (Tree::Text("filename"@), Tree::Text(f))]),
        None => Tree::Table(seq![kind]),
    }
}

/// Reads a text.
pub fn read_text(node: &Node) -> (r: Option<String>)
    ensures
        r.deep_view() == text_of(node@),
{
    match node {
        Node::Text(s) => Some(s.clone()),
        _ => None,
    }
}

/// Reads a boolean.
pub fn read_flag(node: &Node) -> (r: Option<bool>)
    ensures
        r == flag_of(node@),
{
    match node {
        Node::Bool(b) => Some(*b),
        _ => None,
    }
}

/// Reads a list of texts.
pub fn read_text_list(node: &Node) -> (r: Option<Vec<String>>)
    ensures
        r.deep_view() == text_list_of(node@),
{
    match node {
        Node::List(items) => {
            proof {
                lemma_list_view(*items);
            }
            let ghost trees = items_view(items@);
            let mut out: Vec<String> = Vec::new();
            let mut i: usize = 0;
            while i < items.len()
                invariant
                    i <= items.len(),
                    out.len() == i,
                    trees == items_view(items@),
                    node@ == Tree::List(trees),
                    forall|k: int| 0 <= k < i ==> text_of(#[trigger] trees[k]) == Some(out[k]@),
                decreases items.len() - i,
            {
                match &items[i] {
                    Node::Text(s) => {
                        out.push(s.clone());
                    },
                    _ => {
                        assert(text_of(trees[i as int]) is None);
                        return None;
                    },
                }
                i += 1;
            }
            proof {
                assert(out.deep_view() =~= text_list_of(node@)->0);
            }
            Some(out)
        },
        _ => None,
    }
}

/// Reads a list of lists of texts.
pub fn read_text_lists(node: &Node) -> (r: Option<Vec<Vec<String>>>)
    ensures
        r.deep_view() == text_lists_of(node@),
{
    match node {
        Node::List(items) => {
            proof {
                lemma_list_view(*items);
            }
            let ghost trees = items_view(items@);
            let mut out: Vec<Vec<String>> = Vec::new();
            let mut i: usize = 0;
            while i < items.len()
                invariant
                    i <= items.len(),
                    out.len() == i,
                    trees == items_view(items@),
                    node@ == Tree::List(trees),
                    forall|k: int|
                        0 <= k < i ==> text_list_of(#[trigger] trees[k]) == Some(
                            out[k].deep_view(),
                        ),
                decreases items.len() - i,
            {
                match read_text_list(&items[i]) {
                    Some(list) => {
                        out.push(list);
                    },
                    None => {
                        assert(text_list_of(trees[i as int]) is None);
                        return None;
                    },
                }
                i += 1;
            }
            proof {
                assert(out.deep_view() =~= text_lists_of(node@)->0);
            }
            Some(out)
        },
        _ => None,
    }
}

/// Reads a boot location.
pub fn read_boot(node: &Node) -> (r: Option<BootLocation>)
    ensures
        r == boot_of(node@),
{
    match node {
        Node::Text(tag) => BootLocation::from_tag(tag.as_str()),
        _ => None,
    }
}

/// Reads a check.
pub fn read_check(node: &Node) -> (r: Option<CheckPasswd>)
    ensures
        check_view(r) == check_of(node@),
{
    match node {
        Node::Table(entries) => {
            proof {
                lemma_table_view(*entries);
            }
            let ghost trees = entries_view(entries@);
            let mut i: usize = 0;
            while i < entries.len()
                invariant
                    i <= entries.len(),
                    trees == entries_view(entries@),
                    node@ == Tree::Table(trees),
                    forall|k: int| 0 <= k < i ==> #[trigger] check_key_ok(trees, k),
                decreases entries.len() - i,
            {
                let key = &entries[i].0;
                if is_text(key, "type") {
                    if find_before(entries, i, "type").is_some() {
                        assert(!check_key_ok(trees, i as int));
                        return None;
                    }
                } else if is_text(key, "filename") {
                    if find_before(entries, i, "filename").is_some() {
                        assert(!check_key_ok(trees, i as int));
                        return None;
                    }
                } else {
                    assert(!check_key_ok(trees, i as int));
                    return None;
                }
                i += 1;
            }
            let variant = match find(entries, "type") {
                Some(Node::Text(tag)) => match CheckPasswdType::from_tag(tag.as_str()) {
                    Some(variant) => variant,
                    None => {
                        return None;
                    },
                },
                _ => {
                    return None;
                },
            };
            match find(entries, "filename") {
                None | Some(Node::Null) => Some(CheckPasswd { variant, filename: None }),
                Some(Node::Text(f)) => Some(CheckPasswd { variant, filename: Some(f.clone()) }),
                _ => None,
            }
        },
        _ => None,
    }
}

/// Whether `node` is a value of kind `kind`.
pub fn node_fits(kind: Kind, node: &Node) -> (b: bool)
    ensures
        b == fits(kind, node@),
{
    match kind {
        Kind::Text => read_text(node).is_some(),
        Kind::Flag => read_flag(node).is_some(),
        Kind::TextList => read_text_list(node).is_some(),
        Kind::TextLists => read_text_lists(node).is_some(),
        Kind::Boot => read_boot(node).is_some(),
        Kind::Check => read_check(node).is_some(),
    }
}

/// A list of texts is read back from its tree.
pub proof fn lemma_text_list_round_trip(list: Seq<Seq<char>>)
    ensures
        text_list_of(text_list_tree(list)) == Some(list),
{
    assert(text_list_of(text_list_tree(list))->0 =~= list);
}

/// A list of lists of texts is read back from its tree.
pub proof fn lemma_text_lists_round_trip(lists: Seq<Seq<Seq<char>>>)
    ensures
        text_lists_of(text_lists_tree(lists)) == Some(lists),
{
    let items = text_lists_tree(lists)->List_0;
    assert forall|i: int| 0 <= i < items.len() implies text_list_of(#[trigger] items[i]) == Some(
        lists[i],
    ) by {
        lemma_text_list_round_trip(lists[i]);
    }
    assert(text_lists_of(text_lists_tree(lists))->0 =~= lists);
}

/// A boot location is read back from its tree.
pub proof fn lemma_boot_round_trip(b: BootLocation)
    ensures
        boot_of(boot_tree(b)) == Some(b),
{
    lemma_boot_tag_round_trip(b);
}

/// A check is read back from its tree.
pub proof fn lemma_check_round_trip(c: CheckPasswdView)
    ensures
        check_of(check_tree(c)) == Some(c),
{
    reveal_strlit("type");
    reveal_strlit("filename");
    reveal_with_fuel(lookup, 3);
    lemma_check_tag_round_trip(c.variant);
    let entries = check_tree(c)->Table_0;
    assert("type"@.len() != "filename"@.len());
    assert forall|i: int| 0 <= i < entries.len() implies #[trigger] check_key_ok(entries, i) by {
        if i == 0 {
            assert(entries.take(0) =~= Seq::<(Tree, Tree)>::empty());
        } else {
            assert(entries.take(1) =~= seq![entries[0]]);
        }
    }
}

} // verus!
