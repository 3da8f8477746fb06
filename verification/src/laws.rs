//! What holds between reading and writing a manifest.
use crate::decode::{accepts, assembled, decoded, entry_fault, first_fault, missing, present};
use crate::document::{lemma_lookup_none, lookup, printable, Tree};
use crate::encode::{emitted, emitted_at, encoded, field_tree};
use crate::error::SchemaFault;
use crate::schema::{lemma_named_name, lemma_names_distinct, lemma_ordinal_at, Field, FIELD_COUNT};
use crate::treefile::{CheckPasswdView, ManifestView};
use crate::values::{
    check_tree, lemma_boot_round_trip, lemma_check_round_trip, lemma_text_list_round_trip,
    lemma_text_lists_round_trip, text_list_tree, text_lists_tree,
};
use vstd::prelude::*;

verus! {

/// The position in the schema of the field whose key the entry has; -1 where
/// its key is that of no field.
pub open spec fn entry_ordinal(entry: (Tree, Tree)) -> int {
    match entry.0 {
        Tree::Text(name) => match Field::named(name) {
            Some(f) => f.spec_ordinal() as int,
            None => -1,
        },
        _ => -1,
    }
}

/// The entry stands for a present field of `m` at position `from` or after.
pub open spec fn stands_for(m: ManifestView, from: int, entry: (Tree, Tree)) -> bool {
    exists|f: Field|
        #![trigger f.spec_name()]
        f.spec_ordinal() >= from && entry.0 == Tree::Text(f.spec_name()) && field_tree(m, f)
            == Some(entry.1)
}

/// The value that a manifest writes for a field is one that the field accepts,
/// and is never null.
pub proof fn lemma_field_tree_accepted(m: ManifestView, f: Field)
    requires
        field_tree(m, f) is Some,
    ensures
        accepts(f, field_tree(m, f)->0),
        field_tree(m, f)->0 != Tree::Null,
{
    lemma_text_list_round_trip(m.repos);
    lemma_text_list_round_trip(m.packages);
    match f {
        Field::BootstrapPackages => lemma_text_list_round_trip(m.bootstrap_packages->0),
        Field::InstallLangs => lemma_text_list_round_trip(m.install_langs->0),
        Field::InitramfsArgs => lemma_text_list_round_trip(m.initramfs_args->0),
        Field::Units => lemma_text_list_round_trip(m.units->0),
        Field::EtcGroupMembers => lemma_text_list_round_trip(m.etc_group_members->0),
        Field::IgnoreRemovedUsers => lemma_text_list_round_trip(m.ignore_removed_users->0),
        Field::IgnoreRemovedGroups => lemma_text_list_round_trip(m.ignore_removed_groups->0),
        Field::AddFiles => lemma_text_list_round_trip(m.add_files->0),
        Field::RemoveFiles => lemma_text_list_round_trip(m.remove_files->0),
        Field::RemoveFromPackages => lemma_text_lists_round_trip(m.remove_from_packages->0),
        Field::BootLocation => lemma_boot_round_trip(m.boot_location->0),
        Field::CheckPasswd => lemma_check_round_trip(m.check_passwd->0),
        Field::CheckGroups => lemma_check_round_trip(m.check_groups->0),
        _ => {},
    }
}

/// Among the entries written for the fields from position `from` on, the value
/// under the key of a field is the value written for it, and there is none for
/// a field before `from` or an absent one.
pub proof fn lemma_emitted_lookup(m: ManifestView, from: int, f: Field)
    requires
        0 <= from <= FIELD_COUNT,
    ensures
        lookup(emitted(m, from), f.spec_name()) == if f.spec_ordinal() >= from {
            field_tree(m, f)
        } else {
            None
        },
    decreases FIELD_COUNT - from,
{
    if from < FIELD_COUNT {
        let g = Field::spec_at(from);
        lemma_ordinal_at(f);
        lemma_emitted_lookup(m, from + 1, f);
        if field_tree(m, g) is Some {
            if f != g {
                if f.spec_name() == g.spec_name() {
                    lemma_names_distinct(f, g);
                }
            }
            assert(emitted(m, from).drop_first() =~= emitted(m, from + 1));
        } else {
            assert(emitted(m, from) =~= emitted(m, from + 1));
        }
    }
}

/// The entries written for the fields from position `from` on each stand for a
/// present field, in strictly rising order of the schema.
pub proof fn lemma_emitted_entries(m: ManifestView, from: int)
    requires
        0 <= from <= FIELD_COUNT,
    ensures
        forall|k: int|
            0 <= k < emitted(m, from).len() ==> stands_for(m, from, #[trigger] emitted(m, from)[k]),
        forall|k: int|
            0 <= k < emitted(m, from).len() ==> entry_ordinal(#[trigger] emitted(m, from)[k])
                >= from,
        forall|j: int, k: int|
            0 <= j < k < emitted(m, from).len() ==> entry_ordinal(#[trigger] emitted(m, from)[j])
                < entry_ordinal(#[trigger] emitted(m, from)[k]),
    decreases FIELD_COUNT - from,
{
    if from < FIELD_COUNT {
        let g = Field::spec_at(from);
        let here = emitted_at(m, from);
        let rest = emitted(m, from + 1);
        let all = emitted(m, from);
        lemma_emitted_entries(m, from + 1);
        lemma_named_name(g);
        assert(all == here + rest);
        assert forall|k: int| 0 <= k < all.len() implies stands_for(m, from, #[trigger] all[k])
            && entry_ordinal(all[k]) >= from by {
            if k < here.len() {
                assert(all[k] == here[k]);
                assert(g.spec_name() == g.spec_name());
            } else {
                assert(all[k] == rest[k - here.len()]);
                let e = rest[k - here.len()];
                assert(stands_for(m, from + 1, e));
                let f = choose|f: Field|
                    #![trigger f.spec_name()]
                    f.spec_ordinal() >= from + 1 && e.0 == Tree::Text(f.spec_name()) && field_tree(
                        m,
                        f,
                    ) == Some(e.1);
                assert(f.spec_ordinal() >= from && e.0 == Tree::Text(f.spec_name()));
            }
        }
        assert forall|j: int, k: int| 0 <= j < k < all.len() implies entry_ordinal(
            #[trigger] all[j],
        ) < entry_ordinal(#[trigger] all[k]) by {
            if j < here.len() {
                assert(all[j] == here[j]);
                assert(all[k] == rest[k - here.len()]);
            } else {
                assert(all[j] == rest[j - here.len()]);
                assert(all[k] == rest[k - here.len()]);
            }
        }
    }
}

/// No entry that a manifest writes is faulty.
pub proof fn lemma_emitted_sound(m: ManifestView, from: int)
    requires
        0 <= from <= emitted(m, 0).len(),
    ensures
        first_fault(emitted(m, 0), from) is None,
    decreases emitted(m, 0).len() - from,
{
    let all = emitted(m, 0);
    if from < all.len() {
        lemma_emitted_sound(m, from + 1);
        lemma_emitted_entries(m, 0);
        let e = all[from];
        assert(stands_for(m, 0, e));
        let f = choose|f: Field|
            #![trigger f.spec_name()]
            f.spec_ordinal() >= 0 && e.0 == Tree::Text(f.spec_name()) && field_tree(m, f) == Some(
                e.1,
            );
        lemma_named_name(f);
        lemma_field_tree_accepted(m, f);
        let before = all.take(from);
        assert forall|k: int| 0 <= k < before.len() implies (#[trigger] before[k]).0 != Tree::Text(
            f.spec_name(),
        ) by {
            assert(before[k] == all[k]);
            assert(entry_ordinal(all[k]) < entry_ordinal(all[from]));
        }
        lemma_lookup_none(before, f.spec_name());
        assert(entry_fault(all, from) is None);
    }
}

/// The value that the written entries give a field is the value that the
/// manifest has for it.
pub proof fn lemma_present_emitted(m: ManifestView, f: Field)
    ensures
        present(emitted(m, 0), f) == field_tree(m, f),
{
    lemma_emitted_lookup(m, 0, f);
    if field_tree(m, f) is Some {
        lemma_field_tree_accepted(m, f);
    }
}

/// Reading what was written gives the manifest back: for every manifest whose
/// `ref` is not empty, the document that stands for it describes that very
/// manifest.
pub proof fn lemma_round_trip(m: ManifestView)
    requires
        m.valid(),
    ensures
        decoded(encoded(m)) == Ok::<ManifestView, SchemaFault>(m),
{
    let es = emitted(m, 0);
    lemma_emitted_sound(m, 0);
    lemma_present_emitted(m, Field::Ref);
    lemma_present_emitted(m, Field::Repos);
    lemma_present_emitted(m, Field::Packages);
    lemma_fields_read_back(m);
    assert(missing(es) is None);
}

/// Each field is read back from the written entries as the manifest has it.
proof fn lemma_fields_read_back(m: ManifestView)
    ensures
        assembled(emitted(m, 0)) == m,
{
    let es = emitted(m, 0);
    assert forall|f: Field| #[trigger] present(es, f) == field_tree(m, f) by {
        lemma_present_emitted(m, f);
    }
    lemma_text_list_round_trip(m.repos);
    lemma_text_list_round_trip(m.packages);
    if m.bootstrap_packages is Some {
        lemma_text_list_round_trip(m.bootstrap_packages->0);
    }
    if m.install_langs is Some {
        lemma_text_list_round_trip(m.install_langs->0);
    }
    if m.initramfs_args is Some {
        lemma_text_list_round_trip(m.initramfs_args->0);
    }
    if m.units is Some {
        lemma_text_list_round_trip(m.units->0);
    }
    if m.etc_group_members is Some {
        lemma_text_list_round_trip(m.etc_group_members->0);
    }
    if m.ignore_removed_users is Some {
        lemma_text_list_round_trip(m.ignore_removed_users->0);
    }
    if m.ignore_removed_groups is Some {
        lemma_text_list_round_trip(m.ignore_removed_groups->0);
    }
    if m.add_files is Some {
        lemma_text_list_round_trip(m.add_files->0);
    }
    if m.remove_files is Some {
        lemma_text_list_round_trip(m.remove_files->0);
    }
    if m.remove_from_packages is Some {
        lemma_text_lists_round_trip(m.remove_from_packages->0);
    }
    if m.boot_location is Some {
        lemma_boot_round_trip(m.boot_location->0);
    }
    if m.check_passwd is Some {
        lemma_check_round_trip(m.check_passwd->0);
    }
    if m.check_groups is Some {
        lemma_check_round_trip(m.check_groups->0);
    }
    let a = assembled(es);
    assert(a.treeref == m.treeref);
    assert(a.repos == m.repos);
    assert(a.selinux == m.selinux);
    assert(a.gpg_key == m.gpg_key);
    assert(a.include_path == m.include_path);
    assert(a.packages == m.packages);
    assert(a.bootstrap_packages == m.bootstrap_packages);
    assert(a.documentation == m.documentation);
    assert(a.install_langs == m.install_langs);
    assert(a.initramfs_args == m.initramfs_args);
    assert(a.boot_location == m.boot_location);
    assert(a.tmp_is_dir == m.tmp_is_dir);
    assert(a.units == m.units);
    assert(a.default_target == m.default_target);
    assert(a.releasever == m.releasever);
    assert(a.automatic_version_prefix == m.automatic_version_prefix);
    assert(a.mutate_os_release == m.mutate_os_release);
    assert(a.etc_group_members == m.etc_group_members);
    assert(a.preserve_passwd == m.preserve_passwd);
    assert(a.check_passwd == m.check_passwd);
    assert(a.check_groups == m.check_groups);
    assert(a.ignore_removed_users == m.ignore_removed_users);
    assert(a.ignore_removed_groups == m.ignore_removed_groups);
    assert(a.postprocess_script == m.postprocess_script);
    assert(a.add_files == m.add_files);
    assert(a.remove_files == m.remove_files);
    assert(a.remove_from_packages == m.remove_from_packages);
}

/// What was absent stays absent: where a document describes a manifest and
/// gives field `f` no value, the document written for that manifest has no
/// entry under the key of `f`.
pub proof fn lemma_absent_stays_absent(entries: Seq<(Tree, Tree)>, f: Field)
    requires
        decoded(Tree::Table(entries)) is Ok,
        present(entries, f) is None,
    ensures
        field_tree(decoded(Tree::Table(entries))->Ok_0, f) is None,
        lookup(emitted(decoded(Tree::Table(entries))->Ok_0, 0), f.spec_name()) is None,
{
    let m = decoded(Tree::Table(entries))->Ok_0;
    assert(m == assembled(entries));
    lemma_emitted_lookup(m, 0, f);
}

/// The tree of a list of texts can be written.
pub proof fn lemma_text_list_printable(list: Seq<Seq<char>>)
    ensures
        printable(text_list_tree(list)),
{
    let items = text_list_tree(list)->List_0;
    assert forall|i: int| 0 <= i < items.len() implies printable(#[trigger] items[i]) by {
        assert(items[i] == Tree::Text(list[i]));
    }
}

/// The tree of a list of lists of texts can be written.
pub proof fn lemma_text_lists_printable(lists: Seq<Seq<Seq<char>>>)
    ensures
        printable(text_lists_tree(lists)),
{
    let items = text_lists_tree(lists)->List_0;
    assert forall|i: int| 0 <= i < items.len() implies printable(#[trigger] items[i]) by {
        assert(items[i] == text_list_tree(lists[i]));
        lemma_text_list_printable(lists[i]);
    }
}

/// The tree of a check can be written.
pub proof fn lemma_check_printable(c: CheckPasswdView)
    ensures
        printable(check_tree(c)),
{
    reveal_strlit("type");
    reveal_strlit("filename");
    assert("type"@.len() != "filename"@.len());
    let entries = check_tree(c)->Table_0;
    assert forall|i: int| 0 <= i < entries.len() implies (#[trigger] entries[i]).0 is Text
        && printable(entries[i].1) by {
        assert(entries[i].1 is Text);
    }
}

/// The value that a manifest writes for a field can be written.
pub proof fn lemma_field_tree_printable(m: ManifestView, f: Field)
    requires
        field_tree(m, f) is Some,
    ensures
        printable(field_tree(m, f)->0),
{
    lemma_text_list_printable(m.repos);
    lemma_text_list_printable(m.packages);
    match f {
        Field::BootstrapPackages => lemma_text_list_printable(m.bootstrap_packages->0),
        Field::InstallLangs => lemma_text_list_printable(m.install_langs->0),
        Field::InitramfsArgs => lemma_text_list_printable(m.initramfs_args->0),
        Field::Units => lemma_text_list_printable(m.units->0),
        Field::EtcGroupMembers => lemma_text_list_printable(m.etc_group_members->0),
        Field::IgnoreRemovedUsers => lemma_text_list_printable(m.ignore_removed_users->0),
        Field::IgnoreRemovedGroups => lemma_text_list_printable(m.ignore_removed_groups->0),
        Field::AddFiles => lemma_text_list_printable(m.add_files->0),
        Field::RemoveFiles => lemma_text_list_printable(m.remove_files->0),
        Field::RemoveFromPackages => lemma_text_lists_printable(m.remove_from_packages->0),
        Field::CheckPasswd => lemma_check_printable(m.check_passwd->0),
        Field::CheckGroups => lemma_check_printable(m.check_groups->0),
        _ => {},
    }
}

/// The document that stands for a manifest can be written in the structured
/// dialect.
pub proof fn lemma_encoded_printable(m: ManifestView)
    ensures
        printable(encoded(m)),
{
    let entries = emitted(m, 0);
    lemma_emitted_entries(m, 0);
    assert forall|i: int| 0 <= i < entries.len() implies (#[trigger] entries[i]).0 is Text
        && printable(entries[i].1) by {
        let e = entries[i];
        assert(stands_for(m, 0, e));
        let f = choose|f: Field|
            #![trigger f.spec_name()]
            f.spec_ordinal() >= 0 && e.0 == Tree::Text(f.spec_name()) && field_tree(m, f) == Some(
                e.1,
            );
        lemma_field_tree_printable(m, f);
    }
    assert forall|i: int, j: int| 0 <= i < j < entries.len() implies (#[trigger] entries[i]).0 != (
    #[trigger] entries[j]).0 by {
        assert(entry_ordinal(entries[i]) < entry_ordinal(entries[j]));
    }
}

} // verus!
