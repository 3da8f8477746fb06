//! The manifest of a tree composition and its mathematical model.
use crate::text::same_text;
use vstd::prelude::*;

verus! {

/// Where the boot files of the composed tree are placed.
#[derive(Clone, Copy, Debug, PartialEq, Eq, Structural)]
pub enum BootLocation {
    Both,
    Legacy,
    New,
}

impl Default for BootLocation {
    fn default() -> (r: Self)
        ensures
            r == BootLocation::Both,
    {
        BootLocation::Both
    }
}

impl BootLocation {
    /// The tag by which the location is written in a document.
    pub open spec fn spec_tag(self) -> Seq<char> {
        match self {
            BootLocation::Both => "both"@,
            BootLocation::Legacy => "legacy"@,
            BootLocation::New => "new"@,
        }
    }

    /// The location that `tag` stands for.
    pub open spec fn tagged(tag: Seq<char>) -> Option<BootLocation> {
        if tag == "both"@ {
            Some(BootLocation::Both)
        } else if tag == "legacy"@ {
            Some(BootLocation::Legacy)
        } else if tag == "new"@ {
            Some(BootLocation::New)
        } else {
            None
        }
    }

    /// The tag by which the location is written in a document.
    pub fn tag(self) -> (s: &'static str)
        ensures
            s@ == self.spec_tag(),
    {
        match self {
            BootLocation::Both => "both",
            BootLocation::Legacy => "legacy",
            BootLocation::New => "new",
        }
    }

    /// Reads a tag.
    pub fn from_tag(tag: &str) -> (r: Option<BootLocation>)
        ensures
            r == BootLocation::tagged(tag@),
    {
        if same_text(tag, "both") {
            Some(BootLocation::Both)
        } else if same_text(tag, "legacy") {
            Some(BootLocation::Legacy)
        } else if same_text(tag, "new") {
            Some(BootLocation::New)
        } else {
            None
        }
    }
}

/// A location is read back from its own tag.
pub proof fn lemma_boot_tag_round_trip(b: BootLocation)
    ensures
        BootLocation::tagged(b.spec_tag()) == Some(b),
{
    reveal_strlit("both");
    reveal_strlit("legacy");
    reveal_strlit("new");
    assert("both"@.len() == 4 && "legacy"@.len() == 6 && "new"@.len() == 3);
}

/// How the user or group database of the tree is checked.
#[derive(Clone, Copy, Debug, PartialEq, Eq, Structural)]
pub enum CheckPasswdType {
    /// No check is made; written `none`.
    NoCheck,
    Previous,
    File,
    Data,
}

impl CheckPasswdType {
    /// The tag by which the kind of check is written in a document.
    pub open spec fn spec_tag(self) -> Seq<char> {
        match self {
            CheckPasswdType::NoCheck => "none"@,
            CheckPasswdType::Previous => "previous"@,
            CheckPasswdType::File => "file"@,
            CheckPasswdType::Data => "data"@,
        }
    }

    /// The kind of check that `tag` stands for.
    pub open spec fn tagged(tag: Seq<char>) -> Option<CheckPasswdType> {
        if tag == "none"@ {
            Some(CheckPasswdType::NoCheck)
        } else if tag == "previous"@ {
            Some(CheckPasswdType::Previous)
        } else if tag == "file"@ {
            Some(CheckPasswdType::File)
        } else if tag == "data"@ {
            Some(CheckPasswdType::Data)
        } else {
            None
        }
    }

    /// The tag by which the kind of check is written in a document.
    pub fn tag(self) -> (s: &'static str)
        ensures
            s@ == self.spec_tag(),
    {
        match self {
            CheckPasswdType::NoCheck => "none",
            CheckPasswdType::Previous => "previous",
            CheckPasswdType::File => "file",
            CheckPasswdType::Data => "data",
        }
    }

    /// Reads a tag.
    pub fn from_tag(tag: &str) -> (r: Option<CheckPasswdType>)
        ensures
            r == CheckPasswdType::tagged(tag@),
    {
        if same_text(tag, "none") {
            Some(CheckPasswdType::NoCheck)
        } else if same_text(tag, "previous") {
            Some(CheckPasswdType::Previous)
        } else if same_text(tag, "file") {
            Some(CheckPasswdType::File)
        } else if same_text(tag, "data") {
            Some(CheckPasswdType::Data)
        } else {
            None
        }
    }
}

/// A kind of check is read back from its own tag.
pub proof fn lemma_check_tag_round_trip(c: CheckPasswdType)
    ensures
        CheckPasswdType::tagged(c.spec_tag()) == Some(c),
{
    reveal_strlit("none");
    reveal_strlit("previous");
    reveal_strlit("file");
    reveal_strlit("data");
    assert("none"@[0] == 'n' && "file"@[0] == 'f' && "data"@[0] == 'd');
}

/// A check of the user or group database: its kind and the file it reads, if any.
#[derive(Clone, Debug, PartialEq, Eq)]
pub struct CheckPasswd {
    pub variant: CheckPasswdType,
    pub filename: Option<String>,
}

/// Model of a `CheckPasswd`.
pub struct CheckPasswdView {
    pub variant: CheckPasswdType,
    pub filename: Option<Seq<char>>,
}

impl View for CheckPasswd {
    type V = CheckPasswdView;

    open spec fn view(&self) -> CheckPasswdView {
        CheckPasswdView { variant: self.variant, filename: self.filename.deep_view() }
    }
}

/// The model of an optional check.
pub open spec fn check_view(check: Option<CheckPasswd>) -> Option<CheckPasswdView> {
    match check {
        Some(c) => Some(c@),
        None => None,
    }
}

/// A tree-composition manifest. An optional field that is `None` was absent from
/// the source and stays absent when the manifest is written out.
#[derive(Clone, Debug, PartialEq, Eq)]
pub struct TreeComposeConfig {
    // Compose controls
    pub treeref: String,
    pub repos: Vec<String>,
    pub selinux: Option<bool>,
    pub gpg_key: Option<String>,
    pub include_path: Option<String>,
    // Core content
    pub packages: Vec<String>,
    pub bootstrap_packages: Option<Vec<String>>,
    // Content installation opts
    pub documentation: Option<bool>,
    pub install_langs: Option<Vec<String>>,
    pub initramfs_args: Option<Vec<String>>,
    // Tree layout options
    pub boot_location: Option<BootLocation>,
    pub tmp_is_dir: Option<bool>,
    // systemd
    pub units: Option<Vec<String>>,
    pub default_target: Option<String>,
    // versioning
    pub releasever: Option<String>,
    pub automatic_version_prefix: Option<String>,
    pub mutate_os_release: Option<String>,
    // passwd-related bits
    pub etc_group_members: Option<Vec<String>>,
    pub preserve_passwd: Option<bool>,
    pub check_passwd: Option<CheckPasswd>,
    pub check_groups: Option<CheckPasswd>,
    pub ignore_removed_users: Option<Vec<String>>,
    pub ignore_removed_groups: Option<Vec<String>>,
    // Content manipulation
    pub postprocess_script: Option<String>,
    pub add_files: Option<Vec<String>>,
    pub remove_files: Option<Vec<String>>,
    pub remove_from_packages: Option<Vec<Vec<String>>>,
}

/// Model of a manifest: texts are sequences of characters, lists are sequences.
pub struct ManifestView {
    pub treeref: Seq<char>,
    pub repos: Seq<Seq<char>>,
    pub selinux: Option<bool>,
    pub gpg_key: Option<Seq<char>>,
    pub include_path: Option<Seq<char>>,
    pub packages: Seq<Seq<char>>,
    pub bootstrap_packages: Option<Seq<Seq<char>>>,
    pub documentation: Option<bool>,
    pub install_langs: Option<Seq<Seq<char>>>,
    pub initramfs_args: Option<Seq<Seq<char>>>,
    pub boot_location: Option<BootLocation>,
    pub tmp_is_dir: Option<bool>,
    pub units: Option<Seq<Seq<char>>>,
    pub default_target: Option<Seq<char>>,
    pub releasever: Option<Seq<char>>,
    pub automatic_version_prefix: Option<Seq<char>>,
    pub mutate_os_release: Option<Seq<char>>,
    pub etc_group_members: Option<Seq<Seq<char>>>,
    pub preserve_passwd: Option<bool>,
    pub check_passwd: Option<CheckPasswdView>,
    pub check_groups: Option<CheckPasswdView>,
    pub ignore_removed_users: Option<Seq<Seq<char>>>,
    pub ignore_removed_groups: Option<Seq<Seq<char>>>,
    pub postprocess_script: Option<Seq<char>>,
    pub add_files: Option<Seq<Seq<char>>>,
    pub remove_files: Option<Seq<Seq<char>>>,
    pub remove_from_packages: Option<Seq<Seq<Seq<char>>>>,
}

impl View for TreeComposeConfig {
    type V = ManifestView;

    open spec fn view(&self) -> ManifestView {
        ManifestView {
            treeref: self.treeref@,
            repos: self.repos.deep_view(),
            selinux: self.selinux,
            gpg_key: self.gpg_key.deep_view(),
            include_path: self.include_path.deep_view(),
            packages: self.packages.deep_view(),
            bootstrap_packages: self.bootstrap_packages.deep_view(),
            documentation: self.documentation,
            install_langs: self.install_langs.deep_view(),
            initramfs_args: self.initramfs_args.deep_view(),
            boot_location: self.boot_location,
            tmp_is_dir: self.tmp_is_dir,
            units: self.units.deep_view(),
            default_target: self.default_target.deep_view(),
            releasever: self.releasever.deep_view(),
            automatic_version_prefix: self.automatic_version_prefix.deep_view(),
            mutate_os_release: self.mutate_os_release.deep_view(),
            etc_group_members: self.etc_group_members.deep_view(),
            preserve_passwd: self.preserve_passwd,
            check_passwd: check_view(self.check_passwd),
            check_groups: check_view(self.check_groups),
            ignore_removed_users: self.ignore_removed_users.deep_view(),
            ignore_removed_groups: self.ignore_removed_groups.deep_view(),
            postprocess_script: self.postprocess_script.deep_view(),
            add_files: self.add_files.deep_view(),
            remove_files: self.remove_files.deep_view(),
            remove_from_packages: self.remove_from_packages.deep_view(),
        }
    }
}

impl ManifestView {
    /// The branch identifier is not empty.
    pub open spec fn valid(self) -> bool {
        self.treeref.len() > 0
    }

    /// Where the boot files go: `Both` unless the manifest says otherwise.
    pub open spec fn effective_boot_location(self) -> BootLocation {
        match self.boot_location {
            Some(b) => b,
            None => BootLocation::Both,
        }
    }

    /// Whether `/tmp` is a directory: `false` unless the manifest says otherwise.
    pub open spec fn effective_tmp_is_dir(self) -> bool {
        match self.tmp_is_dir {
            Some(b) => b,
            None => false,
        }
    }
}

impl TreeComposeConfig {
    /// Where the boot files go: `Both` unless the manifest says otherwise.
    pub fn effective_boot_location(&self) -> (r: BootLocation)
        ensures
            r == self@.effective_boot_location(),
    {
        match self.boot_location {
            Some(b) => b,
            None => BootLocation::default(),
        }
    }

    /// Whether `/tmp` is a directory: `false` unless the manifest says otherwise.
    pub fn effective_tmp_is_dir(&self) -> (r: bool)
        ensures
            r == self@.effective_tmp_is_dir(),
    {
        match self.tmp_is_dir {
            Some(b) => b,
            None => false,
        }
    }
}

} // verus!
