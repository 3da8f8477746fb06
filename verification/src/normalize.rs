//! Normalization of a manifest that was written in the human-friendly dialect:
//! a package entry may name several packages, separated by white space.
use crate::text::{
    is_token, lemma_words_are_tokens, lemma_words_of_token, split_words, words,
};
use crate::treefile::{ManifestView, TreeComposeConfig};
use vstd::prelude::*;

verus! {

/// The words of all entries of `pkgs`, in the order of the entries.
pub open spec fn split_packages(pkgs: Seq<Seq<char>>) -> Seq<Seq<char>>
    decreases pkgs.len(),
{
    if pkgs.len() == 0 {
        Seq::empty()
    } else {
        split_packages(pkgs.drop_last()) + words(pkgs.last())
    }
}

/// Every entry of `pkgs` is a token: not empty and free of white space.
pub open spec fn all_tokens(pkgs: Seq<Seq<char>>) -> bool {
    forall|i: int| 0 <= i < pkgs.len() ==> is_token(#[trigger] pkgs[i])
}

/// The manifest with its package list split.
pub open spec fn normalized(m: ManifestView) -> ManifestView {
    ManifestView { packages: split_packages(m.packages), ..m }
}

/// Splitting yields tokens only.
pub proof fn lemma_split_gives_tokens(pkgs: Seq<Seq<char>>)
    ensures
        all_tokens(split_packages(pkgs)),
    decreases pkgs.len(),
{
    if pkgs.len() > 0 {
        lemma_split_gives_tokens(pkgs.drop_last());
        lemma_words_are_tokens(pkgs.last());
        let head = split_packages(pkgs.drop_last());
        let tail = words(pkgs.last());
        assert forall|i: int| 0 <= i < (head + tail).len() implies is_token(
            #[trigger] (head + tail)[i],
        ) by {
            if i < head.len() {
                assert((head + tail)[i] == head[i]);
            } else {
                assert((head + tail)[i] == tail[i - head.len()]);
            }
        }
    }
}

/// A list of tokens is left as it is.
pub proof fn lemma_split_tokens(pkgs: Seq<Seq<char>>)
    requires
        all_tokens(pkgs),
    ensures
        split_packages(pkgs) == pkgs,
    decreases pkgs.len(),
{
    if pkgs.len() == 0 {
        assert(split_packages(pkgs) =~= pkgs);
    } else {
        let init = pkgs.drop_last();
        assert forall|i: int| 0 <= i < init.len() implies is_token(#[trigger] init[i]) by {
            assert(init[i] == pkgs[i]);
        }
        lemma_split_tokens(init);
        assert(is_token(pkgs[pkgs.len() - 1]));
        lemma_words_of_token(pkgs.last());
        assert(init + seq![pkgs.last()] =~= pkgs);
    }
}

/// Splitting twice is splitting once.
pub proof fn lemma_split_idempotent(pkgs: Seq<Seq<char>>)
    ensures
        split_packages(split_packages(pkgs)) == split_packages(pkgs),
{
    lemma_split_gives_tokens(pkgs);
    lemma_split_tokens(split_packages(pkgs));
}

/// Normalizing twice is normalizing once.
pub proof fn lemma_normalize_idempotent(m: ManifestView)
    ensures
        normalized(normalized(m)) == normalized(m),
{
    lemma_split_idempotent(m.packages);
}

/// A manifest whose packages are tokens is left as it is, and so is its
/// package list.
pub proof fn lemma_normalize_tokens(m: ManifestView)
    requires
        all_tokens(m.packages),
    ensures
        normalized(m).packages == m.packages,
        normalized(m) == m,
{
    lemma_split_tokens(m.packages);
}

/// Splits every entry of `pkgs` at white space and returns the words of all
/// entries in order: an entry may name several packages, or none.
pub fn whitespace_split_packages(pkgs: &Vec<String>) -> (ret: Vec<String>)
    ensures
        ret.deep_view() == split_packages(pkgs.deep_view()),
{
    let mut ret: Vec<String> = Vec::new();
    let mut i: usize = 0;
    proof {
        assert(pkgs.deep_view().take(0) =~= Seq::<Seq<char>>::empty());
        assert(ret.deep_view() =~= Seq::<Seq<char>>::empty());
    }
    while i < pkgs.len()
        invariant
            i <= pkgs.len(),
            ret.deep_view() == split_packages(pkgs.deep_view().take(i as int)),
        decreases pkgs.len() - i,
    {
        let mut found = split_words(pkgs[i].as_str());
        let ghost before = ret.deep_view();
        let ghost added = found.deep_view();
        ret.append(&mut found);
        proof {
            let upto = pkgs.deep_view().take(i + 1);
            assert(upto.drop_last() =~= pkgs.deep_view().take(i as int));
            assert(upto.last() == pkgs[i as int]@);
            assert(ret.deep_view() =~= before + added);
        }
        i += 1;
    }
    proof {
        assert(pkgs.deep_view().take(pkgs.len() as int) =~= pkgs.deep_view());
    }
    ret
}

/// Normalizes a manifest: splits its package list at white space.
pub fn normalize(m: TreeComposeConfig) -> (r: TreeComposeConfig)
    ensures
        r@ == normalized(m@),
{
    let mut r = m;
    r.packages = whitespace_split_packages(&r.packages);
    r
}

} // verus!
