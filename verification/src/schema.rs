//! The schema of a manifest: its fields in the order in which they are written,
//! the key of each in a document, and the kind of value each takes.
use crate::text::same_text;
use vstd::prelude::*;

verus! {

/// A field of the manifest. The variants stand in the order of emission.
#[derive(Clone, Copy, Debug, PartialEq, Eq, Structural)]
pub enum Field {
    Ref,
    Repos,
    Selinux,
    GpgKey,
    Include,
    Packages,
    BootstrapPackages,
    Documentation,
    InstallLangs,
    InitramfsArgs,
    BootLocation,
    TmpIsDir,
    Units,
    DefaultTarget,
    Releasever,
    AutomaticVersionPrefix,
    MutateOsRelease,
    EtcGroupMembers,
    PreservePasswd,
    CheckPasswd,
    CheckGroups,
    IgnoreRemovedUsers,
    IgnoreRemovedGroups,
    PostprocessScript,
    AddFiles,
    RemoveFiles,
    RemoveFromPackages,
}

/// The kinds of value that a field takes.
#[derive(Clone, Copy, Debug, PartialEq, Eq, Structural)]
pub enum Kind {
    /// A text.
    Text,
    /// A boolean.
    Flag,
    /// A list of texts.
    TextList,
    /// A list of lists of texts.
    TextLists,
    /// One of the tags of `BootLocation`.
    Boot,
    /// A table that describes a `CheckPasswd`.
    Check,
}

/// The number of fields.
pub const FIELD_COUNT: usize = 27;

impl Field {
    /// The position of the field in the order of emission.
    pub open spec fn spec_ordinal(self) -> nat {
        match self {
            Field::Ref => 0,
            Field::Repos => 1,
            Field::Selinux => 2,
            Field::GpgKey => 3,
            Field::Include => 4,
            Field::Packages => 5,
            Field::BootstrapPackages => 6,
            Field::Documentation => 7,
            Field::InstallLangs => 8,
            Field::InitramfsArgs => 9,
            Field::BootLocation => 10,
            Field::TmpIsDir => 11,
            Field::Units => 12,
            Field::DefaultTarget => 13,
            Field::Releasever => 14,
            Field::AutomaticVersionPrefix => 15,
            Field::MutateOsRelease => 16,
            Field::EtcGroupMembers => 17,
            Field::PreservePasswd => 18,
            Field::CheckPasswd => 19,
            Field::CheckGroups => 20,
            Field::IgnoreRemovedUsers => 21,
            Field::IgnoreRemovedGroups => 22,
            Field::PostprocessScript => 23,
            Field::AddFiles => 24,
            Field::RemoveFiles => 25,
            Field::RemoveFromPackages => 26,
        }
    }

    /// The field at position `i`; `Ref` where there is none.
    pub open spec fn spec_at(i: int) -> Field {
        if i == 1 {
            Field::Repos
        } else if i == 2 {
            Field::Selinux
        } else if i == 3 {
            Field::GpgKey
        } else if i == 4 {
            Field::Include
        } else if i == 5 {
            Field::Packages
        } else if i == 6 {
            Field::BootstrapPackages
        } else if i == 7 {
            Field::Documentation
        } else if i == 8 {
            Field::InstallLangs
        } else if i == 9 {
            Field::InitramfsArgs
        } else if i == 10 {
            Field::BootLocation
        } else if i == 11 {
            Field::TmpIsDir
        } else if i == 12 {
            Field::Units
        } else if i == 13 {
            Field::DefaultTarget
        } else if i == 14 {
            Field::Releasever
        } else if i == 15 {
            Field::AutomaticVersionPrefix
        } else if i == 16 {
            Field::MutateOsRelease
        } else if i == 17 {
            Field::EtcGroupMembers
        } else if i == 18 {
            Field::PreservePasswd
        } else if i == 19 {
            Field::CheckPasswd
        } else if i == 20 {
            Field::CheckGroups
        } else if i == 21 {
            Field::IgnoreRemovedUsers
        } else if i == 22 {
            Field::IgnoreRemovedGroups
        } else if i == 23 {
            Field::PostprocessScript
        } else if i == 24 {
            Field::AddFiles
        } else if i == 25 {
            Field::RemoveFiles
        } else if i == 26 {
            Field::RemoveFromPackages
        } else {
            Field::Ref
        }
    }

    /// The key of the field in a document.
    pub open spec fn spec_name(self) -> Seq<char> {
        match self {
            Field::Ref => "ref"@,
            Field::Repos => "repos"@,
            Field::Selinux => "selinux"@,
            Field::GpgKey => "gpg-key"@,
            Field::Include => "include"@,
            Field::Packages => "packages"@,
            Field::BootstrapPackages => "bootstrap-packages"@,
            Field::Documentation => "documentation"@,
            Field::InstallLangs => "install-langs"@,
            Field::InitramfsArgs => "initramfs-args"@,
            Field::BootLocation => "boot-location"@,
            Field::TmpIsDir => "tmp-is-dir"@,
            Field::Units => "units"@,
            Field::DefaultTarget => "default-target"@,
            Field::Releasever => "releasever"@,
            Field::AutomaticVersionPrefix => "automatic-version-prefix"@,
            Field::MutateOsRelease => "mutate-os-release"@,
            Field::EtcGroupMembers => "etc-group-members"@,
            Field::PreservePasswd => "preserve-passwd"@,
            Field::CheckPasswd => "check-passwd"@,
            Field::CheckGroups => "check-groups"@,
            Field::IgnoreRemovedUsers => "ignore-removed-users"@,
            Field::IgnoreRemovedGroups => "ignore-removed-groups"@,
            Field::PostprocessScript => "postprocess-script"@,
            Field::AddFiles => "add-files"@,
            Field::RemoveFiles => "remove-files"@,
            Field::RemoveFromPackages => "remove-from-packages"@,
        }
    }

    /// The kind of value that the field takes.
    pub open spec fn spec_kind(self) -> Kind {
        match self {
            Field::Ref
            | Field::GpgKey
            | Field::Include
            | Field::DefaultTarget
            | Field::Releasever
            | Field::AutomaticVersionPrefix
            | Field::MutateOsRelease
            | Field::PostprocessScript => Kind::Text,
            Field::Selinux
            | Field::Documentation
            | Field::TmpIsDir
            | Field::PreservePasswd => Kind::Flag,
            Field::Repos
            | Field::Packages
            | Field::BootstrapPackages
            | Field::InstallLangs
            | Field::InitramfsArgs
            | Field::Units
            | Field::EtcGroupMembers
            | Field::IgnoreRemovedUsers
            | Field::IgnoreRemovedGroups
            | Field::AddFiles
            | Field::RemoveFiles => Kind::TextList,
            Field::RemoveFromPackages => Kind::TextLists,
            Field::BootLocation => Kind::Boot,
            Field::CheckPasswd
            | Field::CheckGroups => Kind::Check,
        }
    }

    /// A manifest cannot do without this field.
    pub open spec fn spec_required(self) -> bool {
        self == Field::Ref || self == Field::Repos || self == Field::Packages
    }

    /// A null value for this field stands for its absence.
    pub open spec fn spec_nullable(self) -> bool {
        !self.spec_required() && self != Field::BootLocation && self != Field::TmpIsDir
    }

    /// The field that has the key `name`, if there is one.
    pub open spec fn named(name: Seq<char>) -> Option<Field> {
        if exists|f: Field| #[trigger] f.spec_name() == name {
            Some(choose|f: Field| #[trigger] f.spec_name() == name)
        } else {
            None
        }
    }

    /// The position of the field in the order of emission.
    pub fn ordinal(self) -> (i: usize)
        ensures
            i == self.spec_ordinal(),
            i < FIELD_COUNT,
    {
        match self {
            Field::Ref => 0,
            Field::Repos => 1,
            Field::Selinux => 2,
            Field::GpgKey => 3,
            Field::Include => 4,
            Field::Packages => 5,
            Field::BootstrapPackages => 6,
            Field::Documentation => 7,
            Field::InstallLangs => 8,
            Field::InitramfsArgs => 9,
            Field::BootLocation => 10,
            Field::TmpIsDir => 11,
            Field::Units => 12,
            Field::DefaultTarget => 13,
            Field::Releasever => 14,
            Field::AutomaticVersionPrefix => 15,
            Field::MutateOsRelease => 16,
            Field::EtcGroupMembers => 17,
            Field::PreservePasswd => 18,
            Field::CheckPasswd => 19,
            Field::CheckGroups => 20,
            Field::IgnoreRemovedUsers => 21,
            Field::IgnoreRemovedGroups => 22,
            Field::PostprocessScript => 23,
            Field::AddFiles => 24,
            Field::RemoveFiles => 25,
            Field::RemoveFromPackages => 26,
        }
    }

    /// The field at position `i`.
    pub fn at(i: usize) -> (f: Field)
        requires
            i < FIELD_COUNT,
        ensures
            f == Field::spec_at(i as int),
            f.spec_ordinal() == i,
    {
        if i == 1 {
            Field::Repos
        } else if i == 2 {
            Field::Selinux
        } else if i == 3 {
            Field::GpgKey
        } else if i == 4 {
            Field::Include
        } else if i == 5 {
            Field::Packages
        } else if i == 6 {
            Field::BootstrapPackages
        } else if i == 7 {
            Field::Documentation
        } else if i == 8 {
            Field::InstallLangs
        } else if i == 9 {
            Field::InitramfsArgs
        } else if i == 10 {
            Field::BootLocation
        } else if i == 11 {
            Field::TmpIsDir
        } else if i == 12 {
            Field::Units
        } else if i == 13 {
            Field::DefaultTarget
        } else if i == 14 {
            Field::Releasever
        } else if i == 15 {
            Field::AutomaticVersionPrefix
        } else if i == 16 {
            Field::MutateOsRelease
        } else if i == 17 {
            Field::EtcGroupMembers
        } else if i == 18 {
            Field::PreservePasswd
        } else if i == 19 {
            Field::CheckPasswd
        } else if i == 20 {
            Field::CheckGroups
        } else if i == 21 {
            Field::IgnoreRemovedUsers
        } else if i == 22 {
            Field::IgnoreRemovedGroups
        } else if i == 23 {
            Field::PostprocessScript
        } else if i == 24 {
            Field::AddFiles
        } else if i == 25 {
            Field::RemoveFiles
        } else if i == 26 {
            Field::RemoveFromPackages
        } else {
            Field::Ref
        }
    }

    /// The key of the field in a document.
    pub fn name(self) -> (s: &'static str)
        ensures
            s@ == self.spec_name(),
    {
        match self {
            Field::Ref => "ref",
            Field::Repos => "repos",
            Field::Selinux => "selinux",
            Field::GpgKey => "gpg-key",
            Field::Include => "include",
            Field::Packages => "packages",
            Field::BootstrapPackages => "bootstrap-packages",
            Field::Documentation => "documentation",
            Field::InstallLangs => "install-langs",
            Field::InitramfsArgs => "initramfs-args",
            Field::BootLocation => "boot-location",
            Field::TmpIsDir => "tmp-is-dir",
            Field::Units => "units",
            Field::DefaultTarget => "default-target",
            Field::Releasever => "releasever",
            Field::AutomaticVersionPrefix => "automatic-version-prefix",
            Field::MutateOsRelease => "mutate-os-release",
            Field::EtcGroupMembers => "etc-group-members",
            Field::PreservePasswd => "preserve-passwd",
            Field::CheckPasswd => "check-passwd",
            Field::CheckGroups => "check-groups",
            Field::IgnoreRemovedUsers => "ignore-removed-users",
            Field::IgnoreRemovedGroups => "ignore-removed-groups",
            Field::PostprocessScript => "postprocess-script",
            Field::AddFiles => "add-files",
            Field::RemoveFiles => "remove-files",
            Field::RemoveFromPackages => "remove-from-packages",
        }
    }

    /// The kind of value that the field takes.
    pub fn kind(self) -> (k: Kind)
        ensures
            k == self.spec_kind(),
    {
        match self {
            Field::Ref
            | Field::GpgKey
            | Field::Include
            | Field::DefaultTarget
            | Field::Releasever
            | Field::AutomaticVersionPrefix
            | Field::MutateOsRelease
            | Field::PostprocessScript => Kind::Text,
            Field::Selinux
            | Field::Documentation
            | Field::TmpIsDir
            | Field::PreservePasswd => Kind::Flag,
            Field::Repos
            | Field::Packages
            | Field::BootstrapPackages
            | Field::InstallLangs
            | Field::InitramfsArgs
            | Field::Units
            | Field::EtcGroupMembers
            | Field::IgnoreRemovedUsers
            | Field::IgnoreRemovedGroups
            | Field::AddFiles
            | Field::RemoveFiles => Kind::TextList,
            Field::RemoveFromPackages => Kind::TextLists,
            Field::BootLocation => Kind::Boot,
            Field::CheckPasswd
            | Field::CheckGroups => Kind::Check,
        }
    }

    /// A manifest cannot do without this field.
    pub fn required(self) -> (b: bool)
        ensures
            b == self.spec_required(),
    {
        match self {
            Field::Ref | Field::Repos | Field::Packages => true,
            _ => false,
        }
    }

    /// A null value for this field stands for its absence.
    pub fn nullable(self) -> (b: bool)
        ensures
            b == self.spec_nullable(),
    {
        match self {
            Field::Ref | Field::Repos | Field::Packages | Field::BootLocation | Field::TmpIsDir => false,
            _ => true,
        }
    }

    /// Finds the field that has the key `name`.
    pub fn from_name(name: &str) -> (r: Option<Field>)
        ensures
            r == Field::named(name@),
    {
        let mut i: usize = 0;
        while i < FIELD_COUNT
            invariant
                i <= FIELD_COUNT,
                forall|f: Field| f.spec_ordinal() < i ==> #[trigger] f.spec_name() != name@,
            decreases FIELD_COUNT - i,
        {
            let f = Field::at(i);
            if same_text(name, f.name()) {
                proof {
                    assert forall|g: Field| #[trigger] g.spec_name() == name@ implies g == f by {
                        lemma_names_distinct(f, g);
                    }
                }
                return Some(f);
            }
            proof {
                assert forall|g: Field| g.spec_ordinal() < i + 1 implies #[trigger] g.spec_name()
                    != name@ by {
                    lemma_ordinal_at(g);
                }
            }
            i += 1;
        }
        None
    }
}

/// A field stands at its own position.
pub proof fn lemma_ordinal_at(f: Field)
    ensures
        Field::spec_at(f.spec_ordinal() as int) == f,
        f.spec_ordinal() < FIELD_COUNT,
{
}

/// The length of a key with its first and its seventh character: enough to tell
/// the keys apart.
pub open spec fn key_print(name: Seq<char>) -> (nat, char, char) {
    (name.len(), name[0], name[6])
}

/// No two fields share a key.
pub proof fn lemma_names_distinct(f: Field, g: Field)
    requires
        f.spec_name() == g.spec_name(),
    ensures
        f == g,
{
    reveal_strlit("ref");
    reveal_strlit("repos");
    reveal_strlit("selinux");
    reveal_strlit("gpg-key");
    reveal_strlit("include");
    reveal_strlit("packages");
    reveal_strlit("bootstrap-packages");
    reveal_strlit("documentation");
    reveal_strlit("install-langs");
    reveal_strlit("initramfs-args");
    reveal_strlit("boot-location");
    reveal_strlit("tmp-is-dir");
    reveal_strlit("units");
    reveal_strlit("default-target");
    reveal_strlit("releasever");
    reveal_strlit("automatic-version-prefix");
    reveal_strlit("mutate-os-release");
    reveal_strlit("etc-group-members");
    reveal_strlit("preserve-passwd");
    reveal_strlit("check-passwd");
    reveal_strlit("check-groups");
    reveal_strlit("ignore-removed-users");
    reveal_strlit("ignore-removed-groups");
    reveal_strlit("postprocess-script");
    reveal_strlit("add-files");
    reveal_strlit("remove-files");
    reveal_strlit("remove-from-packages");
    assert(key_print(f.spec_name()) == key_print(g.spec_name()));
}

/// The key of a field names that field and no other.
pub proof fn lemma_named_name(f: Field)
    ensures
        Field::named(f.spec_name()) == Some(f),
{
    let g = choose|g: Field| #[trigger] g.spec_name() == f.spec_name();
    lemma_names_distinct(f, g);
}

} // verus!
