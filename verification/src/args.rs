//! The argument vector of the composer, made from the caller's arguments.
use crate::dialect::{is_json, is_yaml, spec_is_json, spec_is_yaml};
use crate::error::{DriverError, DriverFault};
use vstd::prelude::*;

verus! {

/// The composer's arguments for the caller's arguments `argv`: `compose`,
/// `tree`, then `argv` unchanged.
pub open spec fn composed(argv: Seq<Seq<char>>) -> Seq<Seq<char>> {
    seq!["compose"@, "tree"@] + argv
}

/// The argument looks like the path of a manifest: it ends in the suffix of
/// one of the two dialects.
pub open spec fn is_manifest_arg(arg: Seq<char>) -> bool {
    spec_is_yaml(arg) || spec_is_json(arg)
}

/// Some argument looks like the path of a manifest.
pub open spec fn has_manifest(args: Seq<Seq<char>>) -> bool {
    exists|i: int| 0 <= i < args.len() && is_manifest_arg(#[trigger] args[i])
}

/// Position `i` holds the last argument that looks like the path of a manifest.
pub open spec fn is_last_manifest(args: Seq<Seq<char>>, i: int) -> bool {
    &&& 0 <= i < args.len()
    &&& is_manifest_arg(args[i])
    &&& forall|j: int| i < j < args.len() ==> !is_manifest_arg(#[trigger] args[j])
}

/// Whether `arg` looks like the path of a manifest.
pub fn looks_like_manifest(arg: &str) -> (b: bool)
    ensures
        b == is_manifest_arg(arg@),
{
    is_yaml(arg) || is_json(arg)
}

/// Makes the composer's arguments from the caller's.
pub fn compose_args(argv: &Vec<String>) -> (args: Vec<String>)
    ensures
        args.deep_view() == composed(argv.deep_view()),
{
    let mut args: Vec<String> = Vec::new();
    args.push("compose".to_owned());
    args.push("tree".to_owned());
    let mut i: usize = 0;
    while i < argv.len()
        invariant
            i <= argv.len(),
            args.len() == i + 2,
            args[0]@ == "compose"@,
            args[1]@ == "tree"@,
            forall|k: int| 0 <= k < i ==> (#[trigger] args[k + 2])@ == argv[k]@,
        decreases argv.len() - i,
    {
        args.push(argv[i].clone());
        i += 1;
    }
    proof {
        let want = composed(argv.deep_view());
        assert(want.len() == args.len());
        assert forall|k: int| 0 <= k < args.len() implies args.deep_view()[k] == want[k] by {
            if k >= 2 {
                assert(args[(k - 2) + 2]@ == argv[k - 2]@);
            }
        }
        assert(args.deep_view() =~= want);
    }
    args
}

/// The position of the last argument that looks like the path of a manifest.
pub fn manifest_index(args: &Vec<String>) -> (r: Option<usize>)
    ensures
        match r {
            Some(i) => is_last_manifest(args.deep_view(), i as int),
            None => !has_manifest(args.deep_view()),
        },
{
    let mut found: Option<usize> = None;
    let mut i: usize = 0;
    while i < args.len()
        invariant
            i <= args.len(),
            match found {
                Some(k) => k < i && is_manifest_arg(args.deep_view()[k as int]) && forall|j: int|
                    k < j < i ==> !is_manifest_arg(#[trigger] args.deep_view()[j]),
                None => forall|j: int| 0 <= j < i ==> !is_manifest_arg(#[trigger] args.deep_view()[j]),
            },
        decreases args.len() - i,
    {
        if looks_like_manifest(args[i].as_str()) {
            found = Some(i);
        }
        i += 1;
    }
    found
}

/// Rewrites the caller's arguments for the composer and finds the manifest
/// among them: the position of the last argument that looks like the path of
/// one, with the composer's arguments. Without such an argument it fails with
/// `NoManifest`.
pub fn rewrite(argv: &Vec<String>) -> (r: Result<(usize, Vec<String>), DriverError>)
    ensures
        match r {
            Ok((index, args)) => args.deep_view() == composed(argv.deep_view())
                && is_last_manifest(args.deep_view(), index as int),
            Err(e) => e@ == DriverFault::NoManifest && !has_manifest(composed(argv.deep_view())),
        },
{
    let args = compose_args(argv);
    match manifest_index(&args) {
        Some(index) => Ok((index, args)),
        None => Err(DriverError::NoManifest),
    }
}

/// Puts `path` in place of the argument at `index`.
pub fn substitute(args: Vec<String>, index: usize, path: String) -> (r: Vec<String>)
    requires
        index < args.len(),
    ensures
        r.deep_view() == args.deep_view().update(index as int, path@),
{
    let mut r = args;
    r.set(index, path);
    proof {
        assert(r.deep_view() =~= args.deep_view().update(index as int, path@));
    }
    r
}

/// The two fixed arguments do not look like the path of a manifest.
pub proof fn lemma_prefix_is_no_manifest()
    ensures
        !is_manifest_arg("compose"@),
        !is_manifest_arg("tree"@),
{
    reveal_strlit("compose");
    reveal_strlit("tree");
    reveal_strlit(".yaml");
    reveal_strlit(".json");
    let c = "compose"@;
    let t = "tree"@;
    assert(c.subrange(2, 7)[0] == 'm');
    assert(!(".yaml"@ =~= c.subrange(2, 7)));
    assert(!(".json"@ =~= c.subrange(2, 7)));
}

/// The last one wins: where two of the arguments look like the path of a
/// manifest, the one that is selected is not before the later of them.
pub proof fn lemma_last_wins(args: Seq<Seq<char>>, i: int, j: int, selected: int)
    requires
        0 <= i < j < args.len(),
        is_manifest_arg(args[i]),
        is_manifest_arg(args[j]),
        is_last_manifest(args, selected),
    ensures
        selected >= j,
        selected != i,
{
}

/// The position that is selected is determined by the arguments.
pub proof fn lemma_last_manifest_unique(args: Seq<Seq<char>>, a: int, b: int)
    requires
        is_last_manifest(args, a),
        is_last_manifest(args, b),
    ensures
        a == b,
{
}

/// The manifest that is selected among the composer's arguments is the one
/// that is selected among the caller's, two places further on.
pub proof fn lemma_selected_among_callers(argv: Seq<Seq<char>>, selected: int)
    ensures
        is_last_manifest(composed(argv), selected) <==> is_last_manifest(argv, selected - 2),
        has_manifest(composed(argv)) <==> has_manifest(argv),
{
    lemma_prefix_is_no_manifest();
    let args = composed(argv);
    assert(args[0] == "compose"@);
    assert(args[1] == "tree"@);
    assert forall|k: int| 0 <= k < argv.len() implies #[trigger] args[k + 2] == argv[k] by {}
    if is_last_manifest(args, selected) {
        assert(selected >= 2);
        assert(args[(selected - 2) + 2] == argv[selected - 2]);
        assert forall|j: int| selected - 2 < j < argv.len() implies !is_manifest_arg(
            #[trigger] argv[j],
        ) by {
            assert(args[j + 2] == argv[j]);
        }
    }
    if is_last_manifest(argv, selected - 2) {
        assert(args[(selected - 2) + 2] == argv[selected - 2]);
        assert forall|j: int| selected < j < args.len() implies !is_manifest_arg(
            #[trigger] args[j],
        ) by {
            assert(args[(j - 2) + 2] == argv[j - 2]);
        }
    }
    if has_manifest(args) {
        let k = choose|k: int| 0 <= k < args.len() && is_manifest_arg(#[trigger] args[k]);
        assert(args[(k - 2) + 2] == argv[k - 2]);
    }
    if has_manifest(argv) {
        let k = choose|k: int| 0 <= k < argv.len() && is_manifest_arg(#[trigger] argv[k]);
        assert(args[k + 2] == argv[k]);
    }
}

} // verus!
