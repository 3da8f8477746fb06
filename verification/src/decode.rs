//! Reading a manifest from a document tree.
use crate::document::{entries_view, find, find_before, lemma_table_view, lookup, Node, Tree};
use crate::error::{SchemaError, SchemaFault};
use crate::schema::Field;
use crate::treefile::{
    check_view, BootLocation, CheckPasswd, CheckPasswdView, ManifestView, TreeComposeConfig,
};
use crate::values::{
    boot_of, check_of, fits, flag_of, node_fits, read_boot, read_check, read_flag, read_text,
    read_text_list, read_text_lists, text_list_of, text_lists_of, text_of,
};
use vstd::prelude::*;

verus! {

/// `t` may stand as the value of field `f`: it is of the field's kind, or it is
/// null and the field takes null for absence.
pub open spec fn accepts(f: Field, t: Tree) -> bool {
    (t == Tree::Null && f.spec_nullable()) || fits(f.spec_kind(), t)
}

/// What is wrong with entry `i`, by itself and against the entries before it.
pub open spec fn entry_fault(entries: Seq<(Tree, Tree)>, i: int) -> Option<SchemaFault> {
    match entries[i].0 {
        Tree::Text(name) => match Field::named(name) {
            None => Some(SchemaFault::UnknownField(name)),
            Some(f) => if lookup(entries.take(i), name) is Some {
                Some(SchemaFault::DuplicateField(f))
            } else if !accepts(f, entries[i].1) {
                Some(SchemaFault::IllTyped(f))
            } else {
                None
            },
        },
        _ => Some(SchemaFault::KeyNotText(i)),
    }
}

/// The fault of the first faulty entry at or after position `from`.
pub open spec fn first_fault(entries: Seq<(Tree, Tree)>, from: int) -> Option<SchemaFault>
    decreases entries.len() - from,
{
    if from < 0 || from >= entries.len() {
        None
    } else {
        match entry_fault(entries, from) {
            Some(e) => Some(e),
            None => first_fault(entries, from + 1),
        }
    }
}

/// The value that the entries give field `f`: none where the field has no entry,
/// or has null and takes null for absence.
pub open spec fn present(entries: Seq<(Tree, Tree)>, f: Field) -> Option<Tree> {
    match lookup(entries, f.spec_name()) {
        Some(t) => if t == Tree::Null && f.spec_nullable() {
            None
        } else {
            Some(t)
        },
        None => None,
    }
}

/// The text that the entries give field `f`.
pub open spec fn field_text(entries: Seq<(Tree, Tree)>, f: Field) -> Option<Seq<char>> {
    match present(entries, f) {
        Some(t) => text_of(t),
        None => None,
    }
}

/// The boolean that the entries give field `f`.
pub open spec fn field_flag(entries: Seq<(Tree, Tree)>, f: Field) -> Option<bool> {
    match present(entries, f) {
        Some(t) => flag_of(t),
        None => None,
    }
}

/// The list of texts that the entries give field `f`.
pub open spec fn field_text_list(entries: Seq<(Tree, Tree)>, f: Field) -> Option<Seq<Seq<char>>> {
    match present(entries, f) {
        Some(t) => text_list_of(t),
        None => None,
    }
}

/// The list of lists of texts that the entries give field `f`.
pub open spec fn field_text_lists(entries: Seq<(Tree, Tree)>, f: Field) -> Option<
    Seq<Seq<Seq<char>>>,
> {
    match present(entries, f) {
        Some(t) => text_lists_of(t),
        None => None,
    }
}

/// The boot location that the entries give field `f`.
pub open spec fn field_boot(entries: Seq<(Tree, Tree)>, f: Field) -> Option<BootLocation> {
    match present(entries, f) {
        Some(t) => boot_of(t),
        None => None,
    }
}

/// The check that the entries give field `f`.
pub open spec fn field_check(entries: Seq<(Tree, Tree)>, f: Field) -> Option<CheckPasswdView> {
    match present(entries, f) {
        Some(t) => check_of(t),
        None => None,
    }
}

/// The manifest that the entries describe, field by field.
pub open spec fn assembled(entries: Seq<(Tree, Tree)>) -> ManifestView {
    ManifestView {
        treeref: match field_text(entries, Field::Ref) {
            Some(v) => v,
            None => Seq::empty(),
        },
        repos: match field_text_list(entries, Field::Repos) {
            Some(v) => v,
            None => Seq::empty(),
        },
        selinux: field_flag(entries, Field::Selinux),
        gpg_key: field_text(entries, Field::GpgKey),
        include_path: field_text(entries, Field::Include),
        packages: match field_text_list(entries, Field::Packages) {
            Some(v) => v,
            None => Seq::empty(),
        },
        bootstrap_packages: field_text_list(entries, Field::BootstrapPackages),
        documentation: field_flag(entries, Field::Documentation),
        install_langs: field_text_list(entries, Field::InstallLangs),
        initramfs_args: field_text_list(entries, Field::InitramfsArgs),
        boot_location: field_boot(entries, Field::BootLocation),
        tmp_is_dir: field_flag(entries, Field::TmpIsDir),
        units: field_text_list(entries, Field::Units),
        default_target: field_text(entries, Field::DefaultTarget),
        releasever: field_text(entries, Field::Releasever),
        automatic_version_prefix: field_text(entries, Field::AutomaticVersionPrefix),
        mutate_os_release: field_text(entries, Field::MutateOsRelease),
        etc_group_members: field_text_list(entries, Field::EtcGroupMembers),
        preserve_passwd: field_flag(entries, Field::PreservePasswd),
        check_passwd: field_check(entries, Field::CheckPasswd),
        check_groups: field_check(entries, Field::CheckGroups),
        ignore_removed_users: field_text_list(entries, Field::IgnoreRemovedUsers),
        ignore_removed_groups: field_text_list(entries, Field::IgnoreRemovedGroups),
        postprocess_script: field_text(entries, Field::PostprocessScript),
        add_files: field_text_list(entries, Field::AddFiles),
        remove_files: field_text_list(entries, Field::RemoveFiles),
        remove_from_packages: field_text_lists(entries, Field::RemoveFromPackages),
    }
}

/// The first required field to which the entries give no value.
pub open spec fn missing(entries: Seq<(Tree, Tree)>) -> Option<Field> {
    if present(entries, Field::Ref) is None {
        Some(Field::Ref)
    } else if present(entries, Field::Repos) is None {
        Some(Field::Repos)
    } else if present(entries, Field::Packages) is None {
        Some(Field::Packages)
    } else {
        None
    }
}

/// The manifest that the document `t` describes, or what keeps it from being one:
/// the fault of its first faulty entry; else the first required field that is
/// missing; else an empty `ref`.
pub open spec fn decoded(t: Tree) -> Result<ManifestView, SchemaFault> {
    match t {
        Tree::Table(entries) => match first_fault(entries, 0) {
            Some(e) => Err(e),
            None => match missing(entries) {
                Some(f) => Err(SchemaFault::MissingField(f)),
                None => if assembled(entries).treeref.len() == 0 {
                    Err(SchemaFault::EmptyRef)
                } else {
                    Ok(assembled(entries))
                },
            },
        },
        _ => Err(SchemaFault::NotATable),
    }
}

/// Whether `node` is null.
fn is_null(node: &Node) -> (b: bool)
    ensures
        b == (node@ == Tree::Null),
{
    match node {
        Node::Null => true,
        _ => false,
    }
}

/// The node that the entries give field `f`.
fn field_node<'a>(entries: &'a Vec<(Node, Node)>, f: Field) -> (r: Option<&'a Node>)
    ensures
        match r {
            Some(n) => present(entries_view(entries@), f) == Some(n@),
            None => present(entries_view(entries@), f) is None,
        },
{
    match find(entries, f.name()) {
        Some(n) => if f.nullable() && is_null(n) {
            None
        } else {
            Some(n)
        },
        None => None,
    }
}

/// Reads the text of field `f`.
fn get_text(entries: &Vec<(Node, Node)>, f: Field) -> (r: Option<String>)
    ensures
        r.deep_view() == field_text(entries_view(entries@), f),
{
    match field_node(entries, f) {
        Some(n) => read_text(n),
        None => None,
    }
}

/// Reads the boolean of field `f`.
fn get_flag(entries: &Vec<(Node, Node)>, f: Field) -> (r: Option<bool>)
    ensures
        r == field_flag(entries_view(entries@), f),
{
    match field_node(entries, f) {
        Some(n) => read_flag(n),
        None => None,
    }
}

/// Reads the list of texts of field `f`.
fn get_text_list(entries: &Vec<(Node, Node)>, f: Field) -> (r: Option<Vec<String>>)
    ensures
        r.deep_view() == field_text_list(entries_view(entries@), f),
{
    match field_node(entries, f) {
        Some(n) => read_text_list(n),
        None => None,
    }
}

/// Reads the list of lists of texts of field `f`.
fn get_text_lists(entries: &Vec<(Node, Node)>, f: Field) -> (r: Option<Vec<Vec<String>>>)
    ensures
        r.deep_view() == field_text_lists(entries_view(entries@), f),
{
    match field_node(entries, f) {
        Some(n) => read_text_lists(n),
        None => None,
    }
}

/// Reads the boot location of field `f`.
fn get_boot(entries: &Vec<(Node, Node)>, f: Field) -> (r: Option<BootLocation>)
    ensures
        r == field_boot(entries_view(entries@), f),
{
    match field_node(entries, f) {
        Some(n) => read_boot(n),
        None => None,
    }
}

/// Reads the check of field `f`.
fn get_check(entries: &Vec<(Node, Node)>, f: Field) -> (r: Option<CheckPasswd>)
    ensures
        check_view(r) == field_check(entries_view(entries@), f),
{
    match field_node(entries, f) {
        Some(n) => read_check(n),
        None => None,
    }
}

/// Reads a manifest from a document, as `decoded` describes.
pub fn decode(tree: &Node) -> (r: Result<TreeComposeConfig, SchemaError>)
    ensures
        match r {
            Ok(m) => decoded(tree@) == Ok::<ManifestView, SchemaFault>(m@),
            Err(e) => decoded(tree@) == Err::<ManifestView, SchemaFault>(e@),
        },
{
    let entries = match tree {
        Node::Table(entries) => entries,
        _ => {
            return Err(SchemaError::NotATable);
        },
    };
    proof {
        lemma_table_view(*entries);
    }
    let ghost es = entries_view(entries@);
    let mut i: usize = 0;
    while i < entries.len()
        invariant
            i <= entries.len(),
            es == entries_view(entries@),
            tree@ == Tree::Table(es),
            first_fault(es, 0) == first_fault(es, i as int),
        decreases entries.len() - i,
    {
        let value = &entries[i].1;
        match &entries[i].0 {
            Node::Text(name) => match Field::from_name(name.as_str()) {
                None => {
                    return Err(SchemaError::UnknownField(name.clone()));
                },
                Some(f) => {
                    if find_before(entries, i, name.as_str()).is_some() {
                        return Err(SchemaError::DuplicateField(f));
                    }
                    if !(f.nullable() && is_null(value)) && !node_fits(f.kind(), value) {
                        return Err(SchemaError::IllTyped(f));
                    }
                },
            },
            _ => {
                return Err(SchemaError::KeyNotText(i));
            },
        }
        i += 1;
    }
    if field_node(entries, Field::Ref).is_none() {
        return Err(SchemaError::MissingField(Field::Ref));
    }
    if field_node(entries, Field::Repos).is_none() {
        return Err(SchemaError::MissingField(Field::Repos));
    }
    if field_node(entries, Field::Packages).is_none() {
        return Err(SchemaError::MissingField(Field::Packages));
    }
    let manifest = assemble(entries);
    if manifest.treeref.as_str().unicode_len() == 0 {
        return Err(SchemaError::EmptyRef);
    }
    Ok(manifest)
}

/// Builds the manifest that the entries describe.
fn assemble(entries: &Vec<(Node, Node)>) -> (m: TreeComposeConfig)
    ensures
        m@ == assembled(entries_view(entries@)),
{
    let treeref = match get_text(entries, Field::Ref) {
        Some(v) => v,
        None => String::new(),
    };
    let repos = match get_text_list(entries, Field::Repos) {
        Some(v) => v,
        None => {
            let v: Vec<String> = Vec::new();
            assert(v.deep_view() =~= Seq::<Seq<char>>::empty());
            v
        },
    };
    let selinux = get_flag(entries, Field::Selinux);
    let gpg_key = get_text(entries, Field::GpgKey);
    let include_path = get_text(entries, Field::Include);
    let packages = match get_text_list(entries, Field::Packages) {
        Some(v) => v,
        None => {
            let v: Vec<String> = Vec::new();
            assert(v.deep_view() =~= Seq::<Seq<char>>::empty());
            v
        },
    };
    let bootstrap_packages = get_text_list(entries, Field::BootstrapPackages);
    let documentation = get_flag(entries, Field::Documentation);
    let install_langs = get_text_list(entries, Field::InstallLangs);
    let initramfs_args = get_text_list(entries, Field::InitramfsArgs);
    let boot_location = get_boot(entries, Field::BootLocation);
    let tmp_is_dir = get_flag(entries, Field::TmpIsDir);
    let units = get_text_list(entries, Field::Units);
    let default_target = get_text(entries, Field::DefaultTarget);
    let releasever = get_text(entries, Field::Releasever);
    let automatic_version_prefix = get_text(entries, Field::AutomaticVersionPrefix);
    let mutate_os_release = get_text(entries, Field::MutateOsRelease);
    let etc_group_members = get_text_list(entries, Field::EtcGroupMembers);
    let preserve_passwd = get_flag(entries, Field::PreservePasswd);
    let check_passwd = get_check(entries, Field::CheckPasswd);
    let check_groups = get_check(entries, Field::CheckGroups);
    let ignore_removed_users = get_text_list(entries, Field::IgnoreRemovedUsers);
    let ignore_removed_groups = get_text_list(entries, Field::IgnoreRemovedGroups);
    let postprocess_script = get_text(entries, Field::PostprocessScript);
    let add_files = get_text_list(entries, Field::AddFiles);
    let remove_files = get_text_list(entries, Field::RemoveFiles);
    let remove_from_packages = get_text_lists(entries, Field::RemoveFromPackages);
    TreeComposeConfig {
        treeref,
        repos,
        selinux,
        gpg_key,
        include_path,
        packages,
        bootstrap_packages,
        documentation,
        install_langs,
        initramfs_args,
        boot_location,
        tmp_is_dir,
        units,
        default_target,
        releasever,
        automatic_version_prefix,
        mutate_os_release,
        etc_group_members,
        preserve_passwd,
        check_passwd,
        check_groups,
        ignore_removed_users,
        ignore_removed_groups,
        postprocess_script,
        add_files,
        remove_files,
        remove_from_packages,
    }
}

} // verus!
