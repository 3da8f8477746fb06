//! Writing a manifest as a document tree.
use crate::document::{entries_view, items_view, lemma_list_view, lemma_table_view, Node, Tree};
use crate::schema::{Field, FIELD_COUNT};
use crate::treefile::{
    check_view, BootLocation, CheckPasswd, CheckPasswdView, ManifestView, TreeComposeConfig,
};
use crate::values::{boot_tree, check_tree, text_list_tree, text_lists_tree};
use vstd::prelude::*;

verus! {

/// The tree of a text, where there is one.
pub open spec fn text_slot(v: Option<Seq<char>>) -> Option<Tree> {
    match v {
        Some(s) => Some(Tree::Text(s)),
        None => None,
    }
}

/// The tree of a boolean, where there is one.
pub open spec fn flag_slot(v: Option<bool>) -> Option<Tree> {
    match v {
        Some(b) => Some(Tree::Bool(b)),
        None => None,
    }
}

/// The tree of a list of texts, where there is one.
pub open spec fn text_list_slot(v: Option<Seq<Seq<char>>>) -> Option<Tree> {
    match v {
        Some(l) => Some(text_list_tree(l)),
        None => None,
    }
}

/// The tree of a list of lists of texts, where there is one.
pub open spec fn text_lists_slot(v: Option<Seq<Seq<Seq<char>>>>) -> Option<Tree> {
    match v {
        Some(l) => Some(text_lists_tree(l)),
        None => None,
    }
}

/// The tree of a boot location, where there is one.
pub open spec fn boot_slot(v: Option<BootLocation>) -> Option<Tree> {
    match v {
        Some(b) => Some(boot_tree(b)),
        None => None,
    }
}

/// The tree of a check, where there is one.
pub open spec fn check_slot(v: Option<CheckPasswdView>) -> Option<Tree> {
    match v {
        Some(c) => Some(check_tree(c)),
        None => None,
    }
}

/// The tree that stands for field `f` of `m` in a document; none where the
/// field is absent from `m`.
pub open spec fn field_tree(m: ManifestView, f: Field) -> Option<Tree> {
    match f {
        Field::Ref => Some(Tree::Text(m.treeref)),
        Field::Repos => Some(text_list_tree(m.repos)),
        Field::Selinux => flag_slot(m.selinux),
        Field::GpgKey => text_slot(m.gpg_key),
        Field::Include => text_slot(m.include_path),
        Field::Packages => Some(text_list_tree(m.packages)),
        Field::BootstrapPackages => text_list_slot(m.bootstrap_packages),
        Field::Documentation => flag_slot(m.documentation),
        Field::InstallLangs => text_list_slot(m.install_langs),
        Field::InitramfsArgs => text_list_slot(m.initramfs_args),
        Field::BootLocation => boot_slot(m.boot_location),
        Field::TmpIsDir => flag_slot(m.tmp_is_dir),
        Field::Units => text_list_slot(m.units),
        Field::DefaultTarget => text_slot(m.default_target),
        Field::Releasever => text_slot(m.releasever),
        Field::AutomaticVersionPrefix => text_slot(m.automatic_version_prefix),
        Field::MutateOsRelease => text_slot(m.mutate_os_release),
        Field::EtcGroupMembers => text_list_slot(m.etc_group_members),
        Field::PreservePasswd => flag_slot(m.preserve_passwd),
        Field::CheckPasswd => check_slot(m.check_passwd),
        Field::CheckGroups => check_slot(m.check_groups),
        Field::IgnoreRemovedUsers => text_list_slot(m.ignore_removed_users),
        Field::IgnoreRemovedGroups => text_list_slot(m.ignore_removed_groups),
        Field::PostprocessScript => text_slot(m.postprocess_script),
        Field::AddFiles => text_list_slot(m.add_files),
        Field::RemoveFiles => text_list_slot(m.remove_files),
        Field::RemoveFromPackages => text_lists_slot(m.remove_from_packages),
    }
}

/// The entry that stands for the field at position `i`, where the field is present.
pub open spec fn emitted_at(m: ManifestView, i: int) -> Seq<(Tree, Tree)> {
    let f = Field::spec_at(i);
    match field_tree(m, f) {
        Some(t) => seq![(Tree::Text(f.spec_name()), t)],
        None => Seq::empty(),
    }
}

/// The entries of the fields at position `from` and after, in the order of the
/// fields: one entry for each field that is present, none for the others.
pub open spec fn emitted(m: ManifestView, from: int) -> Seq<(Tree, Tree)>
    decreases FIELD_COUNT - from,
{
    if from < 0 || from >= FIELD_COUNT {
        Seq::empty()
    } else {
        emitted_at(m, from) + emitted(m, from + 1)
    }
}

/// The document that stands for `m`.
pub open spec fn encoded(m: ManifestView) -> Tree {
    Tree::Table(emitted(m, 0))
}

/// Writes a text.
pub fn text_node(s: &String) -> (n: Node)
    ensures
        n@ == Tree::Text(s@),
{
    Node::Text(s.clone())
}

/// Writes a list of texts.
pub fn text_list_node(list: &Vec<String>) -> (n: Node)
    ensures
        n@ == text_list_tree(list.deep_view()),
{
    let mut items: Vec<Node> = Vec::new();
    let mut i: usize = 0;
    while i < list.len()
        invariant
            i <= list.len(),
            items.len() == i,
            forall|k: int| 0 <= k < i ==> (#[trigger] items[k])@ == Tree::Text(list[k]@),
        decreases list.len() - i,
    {
        items.push(text_node(&list[i]));
        i += 1;
    }
    proof {
        lemma_list_view(items);
        assert(items_view(items@) =~= text_list_tree(list.deep_view())->List_0);
    }
    Node::List(items)
}

/// Writes a list of lists of texts.
pub fn text_lists_node(lists: &Vec<Vec<String>>) -> (n: Node)
    ensures
        n@ == text_lists_tree(lists.deep_view()),
{
    let mut items: Vec<Node> = Vec::new();
    let mut i: usize = 0;
    while i < lists.len()
        invariant
            i <= lists.len(),
            items.len() == i,
            forall|k: int|
                0 <= k < i ==> (#[trigger] items[k])@ == text_list_tree(lists[k].deep_view()),
        decreases lists.len() - i,
    {
        items.push(text_list_node(&lists[i]));
        i += 1;
    }
    proof {
        lemma_list_view(items);
        assert(items_view(items@) =~= text_lists_tree(lists.deep_view())->List_0);
    }
    Node::List(items)
}

/// Writes a boot location.
pub fn boot_node(b: BootLocation) -> (n: Node)
    ensures
        n@ == boot_tree(b),
{
    Node::Text(b.tag().to_owned())
}

/// Writes a check.
pub fn check_node(c: &CheckPasswd) -> (n: Node)
    ensures
        n@ == check_tree(c@),
{
    let mut entries: Vec<(Node, Node)> = Vec::new();
    entries.push((Node::Text("type".to_owned()), Node::Text(c.variant.tag().to_owned())));
    match &c.filename {
        Some(f) => {
            entries.push((Node::Text("filename".to_owned()), text_node(f)));
        },
        None => {},
    }
    proof {
        lemma_table_view(entries);
        assert(entries_view(entries@) =~= check_tree(c@)->Table_0);
    }
    Node::Table(entries)
}

/// Writes a text, where there is one.
fn text_slot_node(v: &Option<String>) -> (r: Option<Node>)
    ensures
        match r {
            Some(n) => text_slot(v.deep_view()) == Some(n@),
            None => text_slot(v.deep_view()) is None,
        },
{
    match v {
        Some(x) => Some(text_node(x)),
        None => None,
    }
}

/// Writes a boolean, where there is one.
fn flag_slot_node(v: &Option<bool>) -> (r: Option<Node>)
    ensures
        match r {
            Some(n) => flag_slot(*v) == Some(n@),
            None => flag_slot(*v) is None,
        },
{
    match v {
        Some(x) => Some(Node::Bool(*x)),
        None => None,
    }
}

/// Writes a list of texts, where there is one.
fn text_list_slot_node(v: &Option<Vec<String>>) -> (r: Option<Node>)
    ensures
        match r {
            Some(n) => text_list_slot(v.deep_view()) == Some(n@),
            None => text_list_slot(v.deep_view()) is None,
        },
{
    match v {
        Some(x) => Some(text_list_node(x)),
        None => None,
    }
}

/// Writes a list of lists of texts, where there is one.
fn text_lists_slot_node(v: &Option<Vec<Vec<String>>>) -> (r: Option<Node>)
    ensures
        match r {
            Some(n) => text_lists_slot(v.deep_view()) == Some(n@),
            None => text_lists_slot(v.deep_view()) is None,
        },
{
    match v {
        Some(x) => Some(text_lists_node(x)),
        None => None,
    }
}

/// Writes a boot location, where there is one.
fn boot_slot_node(v: &Option<BootLocation>) -> (r: Option<Node>)
    ensures
        match r {
            Some(n) => boot_slot(*v) == Some(n@),
            None => boot_slot(*v) is None,
        },
{
    match v {
        Some(x) => Some(boot_node(*x)),
        None => None,
    }
}

/// Writes a check, where there is one.
fn check_slot_node(v: &Option<CheckPasswd>) -> (r: Option<Node>)
    ensures
        match r {
            Some(n) => check_slot(check_view(*v)) == Some(n@),
            None => check_slot(check_view(*v)) is None,
        },
{
    match v {
        Some(x) => Some(check_node(x)),
        None => None,
    }
}

/// The node that stands for field `f` of `m` in a document.
pub fn field_value(m: &TreeComposeConfig, f: Field) -> (r: Option<Node>)
    ensures
        match r {
            Some(n) => field_tree(m@, f) == Some(n@),
            None => field_tree(m@, f) is None,
        },
{
    match f {
        Field::Ref => Some(text_node(&m.treeref)),
        Field::Repos => Some(text_list_node(&m.repos)),
        Field::Selinux => flag_slot_node(&m.selinux),
        Field::GpgKey => text_slot_node(&m.gpg_key),
        Field::Include => text_slot_node(&m.include_path),
        Field::Packages => Some(text_list_node(&m.packages)),
        Field::BootstrapPackages => text_list_slot_node(&m.bootstrap_packages),
        Field::Documentation => flag_slot_node(&m.documentation),
        Field::InstallLangs => text_list_slot_node(&m.install_langs),
        Field::InitramfsArgs => text_list_slot_node(&m.initramfs_args),
        Field::BootLocation => boot_slot_node(&m.boot_location),
        Field::TmpIsDir => flag_slot_node(&m.tmp_is_dir),
        Field::Units => text_list_slot_node(&m.units),
        Field::DefaultTarget => text_slot_node(&m.default_target),
        Field::Releasever => text_slot_node(&m.releasever),
        Field::AutomaticVersionPrefix => text_slot_node(&m.automatic_version_prefix),
        Field::MutateOsRelease => text_slot_node(&m.mutate_os_release),
        Field::EtcGroupMembers => text_list_slot_node(&m.etc_group_members),
        Field::PreservePasswd => flag_slot_node(&m.preserve_passwd),
        Field::CheckPasswd => check_slot_node(&m.check_passwd),
        Field::CheckGroups => check_slot_node(&m.check_groups),
        Field::IgnoreRemovedUsers => text_list_slot_node(&m.ignore_removed_users),
        Field::IgnoreRemovedGroups => text_list_slot_node(&m.ignore_removed_groups),
        Field::PostprocessScript => text_slot_node(&m.postprocess_script),
        Field::AddFiles => text_list_slot_node(&m.add_files),
        Field::RemoveFiles => text_list_slot_node(&m.remove_files),
        Field::RemoveFromPackages => text_lists_slot_node(&m.remove_from_packages),
    }
}

/// Writes a manifest as a document: its present fields in the order of the
/// schema, each under its key.
pub fn encode(m: &TreeComposeConfig) -> (n: Node)
    ensures
        n@ == encoded(m@),
{
    let mut entries: Vec<(Node, Node)> = Vec::new();
    let mut i: usize = 0;
    proof {
        assert(entries_view(entries@) + emitted(m@, 0) =~= emitted(m@, 0));
    }
    while i < FIELD_COUNT
        invariant
            i <= FIELD_COUNT,
            entries_view(entries@) + emitted(m@, i as int) == emitted(m@, 0),
        decreases FIELD_COUNT - i,
    {
        let f = Field::at(i);
        let ghost before = entries_view(entries@);
        match field_value(m, f) {
            Some(value) => {
                entries.push((Node::Text(f.name().to_owned()), value));
                proof {
                    assert(entries_view(entries@) =~= before + emitted_at(m@, i as int));
                }
            },
            None => {
                proof {
                    assert(entries_view(entries@) =~= before + emitted_at(m@, i as int));
                }
            },
        }
        proof {
            assert(before + (emitted_at(m@, i as int) + emitted(m@, i + 1)) =~= (before
                + emitted_at(m@, i as int)) + emitted(m@, i + 1));
        }
        i += 1;
    }
    proof {
        lemma_table_view(entries);
        assert(entries_view(entries@) + emitted(m@, FIELD_COUNT as int) =~= entries_view(
            entries@,
        ));
    }
    Node::Table(entries)
}

} // verus!
