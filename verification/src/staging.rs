//! The plan of the staging directory: the normalized manifest and the files
//! beside the manifest that are staged with it.
use crate::dialect::{is_json, is_yaml, spec_is_json, spec_is_yaml};
use crate::error::{DriverError, DriverFault};
use crate::text::{ends_with, join, same_text};
use vstd::prelude::*;

verus! {

/// An entry of the directory that holds the manifest.
#[derive(Clone, Debug, PartialEq, Eq)]
pub struct DirEntry {
    /// The name of the entry within the directory.
    pub name: String,
    /// Whether the entry is a regular file.
    pub is_file: bool,
}

/// Model of a `DirEntry`.
pub struct DirEntryView {
    pub name: Seq<char>,
    pub is_file: bool,
}

impl View for DirEntry {
    type V = DirEntryView;

    open spec fn view(&self) -> DirEntryView {
        DirEntryView { name: self.name@, is_file: self.is_file }
    }
}

/// The models of the entries of a directory.
pub open spec fn listing(entries: Seq<DirEntry>) -> Seq<DirEntryView> {
    Seq::new(entries.len(), |i: int| entries[i]@)
}

/// What is put into the staging directory, by name.
#[derive(Clone, Debug, PartialEq, Eq)]
pub struct StagingPlan {
    /// The name under which the normalized manifest is written.
    pub manifest_name: String,
    /// The names of the files that are copied from beside the manifest.
    pub copies: Vec<String>,
}

/// The name is one that is staged with a manifest: it ends in `.repo` or in
/// `.json`, or is `passwd` or `group`, or is the manifest's postprocess script.
pub open spec fn curated(name: Seq<char>, script: Option<Seq<char>>) -> bool {
    ||| ".repo"@.is_suffix_of(name)
    ||| spec_is_json(name)
    ||| name == "passwd"@
    ||| name == "group"@
    ||| script == Some(name)
}

/// The entry is copied: a regular file with a curated name.
pub open spec fn wanted(entry: DirEntryView, script: Option<Seq<char>>) -> bool {
    entry.is_file && curated(entry.name, script)
}

/// The names of the entries that are copied, in the order of the listing.
pub open spec fn copies_of(entries: Seq<DirEntryView>, script: Option<Seq<char>>) -> Seq<Seq<char>>
    decreases entries.len(),
{
    if entries.len() == 0 {
        Seq::empty()
    } else if wanted(entries.last(), script) {
        copies_of(entries.drop_last(), script).push(entries.last().name)
    } else {
        copies_of(entries.drop_last(), script)
    }
}

/// The name of the normalized manifest: the base name of the manifest with its
/// suffix `.yaml` replaced by `.json`.
pub open spec fn staged_name(base: Seq<char>) -> Seq<char> {
    if spec_is_yaml(base) {
        base.subrange(0, base.len() - 5) + ".json"@
    } else {
        base
    }
}

/// The names in the staging directory: the normalized manifest, then the copies.
pub open spec fn staged_files(
    base: Seq<char>,
    entries: Seq<DirEntryView>,
    script: Option<Seq<char>>,
) -> Seq<Seq<char>> {
    seq![staged_name(base)] + copies_of(entries, script)
}

/// Entry `i` is copied under a name that is taken: that of the normalized
/// manifest, or that of an entry copied before it.
pub open spec fn clashes(
    base: Seq<char>,
    entries: Seq<DirEntryView>,
    script: Option<Seq<char>>,
    i: int,
) -> bool {
    &&& wanted(entries[i], script)
    &&& entries[i].name == staged_name(base) || copies_of(entries.take(i), script).contains(
        entries[i].name,
    )
}

/// The name of the first entry at or after position `from` that clashes.
pub open spec fn first_clash(
    base: Seq<char>,
    entries: Seq<DirEntryView>,
    script: Option<Seq<char>>,
    from: int,
) -> Option<Seq<char>>
    decreases entries.len() - from,
{
    if from < 0 || from >= entries.len() {
        None
    } else if clashes(base, entries, script, from) {
        Some(entries[from].name)
    } else {
        first_clash(base, entries, script, from + 1)
    }
}

/// The message for a name that is staged twice.
pub open spec fn staged_twice(name: Seq<char>) -> Seq<char> {
    "file is staged twice: "@ + name
}

/// The directory whose entries are listed: the parent of the manifest, and the
/// current directory where the parent is empty.
pub open spec fn spec_source_dir(parent: Seq<char>) -> Seq<char> {
    if parent.len() == 0 {
        "."@
    } else {
        parent
    }
}

/// The names that are copied from a part of a listing begin the names that are
/// copied from all of it.
pub proof fn lemma_copies_prefix(entries: Seq<DirEntryView>, script: Option<Seq<char>>, k: int)
    requires
        0 <= k <= entries.len(),
    ensures
        copies_of(entries.take(k), script).is_prefix_of(copies_of(entries, script)),
    decreases entries.len() - k,
{
    if k == entries.len() {
        assert(entries.take(k) =~= entries);
    } else {
        lemma_copies_prefix(entries, script, k + 1);
        let more = entries.take(k + 1);
        assert(more.drop_last() =~= entries.take(k));
    }
}

/// A name is among the copies exactly when some wanted entry has it.
pub proof fn lemma_copies_contain(
    entries: Seq<DirEntryView>,
    script: Option<Seq<char>>,
    name: Seq<char>,
)
    ensures
        copies_of(entries, script).contains(name) <==> exists|i: int|
            0 <= i < entries.len() && wanted(#[trigger] entries[i], script) && entries[i].name
                == name,
    decreases entries.len(),
{
    let copies = copies_of(entries, script);
    if entries.len() > 0 {
        let init = entries.drop_last();
        let last = entries.last();
        let before = copies_of(init, script);
        lemma_copies_contain(init, script, name);
        if copies.contains(name) {
            let j = choose|j: int| 0 <= j < copies.len() && copies[j] == name;
            if wanted(last, script) && j == copies.len() - 1 {
                assert(wanted(entries[entries.len() - 1], script));
            } else {
                assert(before[j] == name);
                assert(before.contains(name));
                let i = choose|i: int|
                    0 <= i < init.len() && wanted(#[trigger] init[i], script) && init[i].name
                        == name;
                assert(entries[i] == init[i]);
            }
        }
        if exists|i: int|
            0 <= i < entries.len() && wanted(#[trigger] entries[i], script) && entries[i].name
                == name {
            let i = choose|i: int|
                0 <= i < entries.len() && wanted(#[trigger] entries[i], script) && entries[i].name
                    == name;
            if i == entries.len() - 1 {
                assert(copies[copies.len() - 1] == name);
            } else {
                assert(init[i] == entries[i]);
                assert(before.contains(name));
                let j = choose|j: int| 0 <= j < before.len() && before[j] == name;
                assert(copies[j] == name);
            }
        }
    }
}

/// The staging directory holds the normalized manifest and the wanted entries
/// of the listing, and nothing else.
pub proof fn lemma_staging_closure(
    base: Seq<char>,
    entries: Seq<DirEntryView>,
    script: Option<Seq<char>>,
    name: Seq<char>,
)
    ensures
        staged_files(base, entries, script).contains(name) <==> (name == staged_name(base)
            || exists|i: int|
            0 <= i < entries.len() && wanted(#[trigger] entries[i], script) && entries[i].name
                == name),
{
    let copies = copies_of(entries, script);
    let files = staged_files(base, entries, script);
    lemma_copies_contain(entries, script, name);
    if files.contains(name) {
        let j = choose|j: int| 0 <= j < files.len() && files[j] == name;
        if j > 0 {
            assert(copies[j - 1] == name);
        }
    }
    if name == staged_name(base) {
        assert(files[0] == name);
    }
    if copies.contains(name) {
        let j = choose|j: int| 0 <= j < copies.len() && copies[j] == name;
        assert(files[j + 1] == name);
    }
}

/// Whether a file of this name is staged with a manifest that has this
/// postprocess script.
pub fn is_curated(name: &str, script: &Option<String>) -> (b: bool)
    ensures
        b == curated(name@, script.deep_view()),
{
    if ends_with(name, ".repo") || is_json(name) || same_text(name, "passwd") || same_text(
        name,
        "group",
    ) {
        return true;
    }
    match script {
        Some(s) => same_text(name, s.as_str()),
        None => false,
    }
}

/// The name under which the normalized manifest is staged.
pub fn staged_manifest_name(base: &str) -> (r: String)
    ensures
        r@ == staged_name(base@),
{
    if is_yaml(base) {
        proof {
            reveal_strlit(".yaml");
        }
        let n = base.unicode_len();
        join(base.substring_char(0, n - 5), ".json")
    } else {
        base.to_owned()
    }
}

/// The directory whose entries are listed for a manifest with this parent.
pub fn source_dir(parent: &str) -> (r: String)
    ensures
        r@ == spec_source_dir(parent@),
{
    if parent.unicode_len() == 0 {
        ".".to_owned()
    } else {
        parent.to_owned()
    }
}

/// Whether one of the first `n` of `names` is `name`.
fn among(names: &Vec<String>, n: usize, name: &str) -> (b: bool)
    requires
        n <= names.len(),
    ensures
        b == names.deep_view().take(n as int).contains(name@),
{
    let ghost seen = names.deep_view().take(n as int);
    let mut i: usize = 0;
    while i < n
        invariant
            i <= n <= names.len(),
            seen == names.deep_view().take(n as int),
            forall|k: int| 0 <= k < i ==> seen[k] != name@,
        decreases n - i,
    {
        if same_text(names[i].as_str(), name) {
            assert(seen[i as int] == name@);
            return true;
        }
        i += 1;
    }
    false
}

/// Plans the staging directory for the manifest with base name `base` and
/// postprocess script `script`, beside which `entries` lie. It fails with an
/// `Io` error exactly where two of the staged files would have the same name,
/// and names the first entry whose name is taken.
pub fn plan_staging(base: &str, entries: &Vec<DirEntry>, script: &Option<String>) -> (r: Result<
    StagingPlan,
    DriverError,
>)
    ensures
        match r {
            Ok(plan) => {
                &&& plan.manifest_name@ == staged_name(base@)
                &&& plan.copies.deep_view() == copies_of(listing(entries@), script.deep_view())
                &&& staged_files(base@, listing(entries@), script.deep_view()).no_duplicates()
            },
            Err(e) => {
                &&& !staged_files(base@, listing(entries@), script.deep_view()).no_duplicates()
                &&& first_clash(base@, listing(entries@), script.deep_view(), 0) matches Some(name)
                &&& e@ == DriverFault::Io(staged_twice(name))
            },
        },
{
    let manifest_name = staged_manifest_name(base);
    let mut copies: Vec<String> = Vec::new();
    let ghost all = listing(entries@);
    let ghost sv = script.deep_view();
    let mut i: usize = 0;
    proof {
        assert(all.take(0) =~= Seq::<DirEntryView>::empty());
        assert(copies.deep_view() =~= Seq::<Seq<char>>::empty());
    }
    while i < entries.len()
        invariant
            i <= entries.len(),
            all == listing(entries@),
            sv == script.deep_view(),
            manifest_name@ == staged_name(base@),
            first_clash(base@, all, sv, 0) == first_clash(base@, all, sv, i as int),
            copies.deep_view() == copies_of(all.take(i as int), sv),
            (seq![manifest_name@] + copies.deep_view()).no_duplicates(),
        decreases entries.len() - i,
    {
        let entry = &entries[i];
        proof {
            let more = all.take(i + 1);
            assert(more.drop_last() =~= all.take(i as int));
            assert(more.last() == entry@);
        }
        proof {
            assert(all[i as int] == entry@);
        }
        if entry.is_file && is_curated(entry.name.as_str(), script) {
            let ghost before = copies.deep_view();
            let clash = same_text(entry.name.as_str(), manifest_name.as_str()) || among(
                &copies,
                copies.len(),
                entry.name.as_str(),
            );
            proof {
                assert(before.take(before.len() as int) =~= before);
                assert(all[i as int] == entry@);
                assert(clash == clashes(base@, all, sv, i as int));
            }
            if clash {
                proof {
                    let part = copies_of(all.take(i + 1), sv);
                    assert(part == before.push(entry.name@));
                    lemma_copies_prefix(all, sv, i + 1);
                    let whole = copies_of(all, sv);
                    let files = staged_files(base@, all, sv);
                    assert(whole[before.len() as int] == part[before.len() as int]);
                    assert(files[before.len() as int + 1] == entry.name@);
                    if entry.name@ == manifest_name@ {
                        assert(files[0] == entry.name@);
                    } else {
                        let j = choose|j: int| 0 <= j < before.len() && before[j] == entry.name@;
                        assert(whole[j] == part[j]);
                        assert(files[j + 1] == entry.name@);
                    }
                }
                return Err(DriverError::Io(join("file is staged twice: ", entry.name.as_str())));
            }
            copies.push(entry.name.clone());
            proof {
                assert(copies.deep_view() =~= before.push(entry.name@));
                let files = seq![manifest_name@] + copies.deep_view();
                let old_files = seq![manifest_name@] + before;
                assert forall|a: int, b: int|
                    0 <= a < files.len() && 0 <= b < files.len() && a != b implies files[a]
                    != files[b] by {
                    let last = files.len() - 1;
                    if a < last && b < last {
                        assert(files[a] == old_files[a] && files[b] == old_files[b]);
                    } else {
                        let other = if a == last {
                            b
                        } else {
                            a
                        };
                        assert(files[other] == old_files[other]);
                        assert(files[last] == entry.name@);
                        if other > 0 {
                            let seen = before.take(before.len() as int);
                            assert(seen[other - 1] == old_files[other]);
                            assert(!seen.contains(entry.name@));
                        }
                    }
                }
            }
        }
        i += 1;
    }
    proof {
        assert(all.take(entries.len() as int) =~= all);
    }
    Ok(StagingPlan { manifest_name, copies })
}

} // verus!
