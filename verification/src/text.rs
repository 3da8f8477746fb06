//! Text predicates and whitespace splitting over sequences of characters.
use vstd::prelude::*;

verus! {

/// The code points that carry the Unicode property `White_Space`.
pub open spec fn is_whitespace(c: char) -> bool {
    let n = c as u32;
    ||| 0x09 <= n <= 0x0D
    ||| n == 0x20
    ||| n == 0x85
    ||| n == 0xA0
    ||| n == 0x1680
    ||| 0x2000 <= n <= 0x200A
    ||| n == 0x2028
    ||| n == 0x2029
    ||| n == 0x202F
    ||| n == 0x205F
    ||| n == 0x3000
}

/// No character of `s` is white space.
pub open spec fn whitespace_free(s: Seq<char>) -> bool {
    forall|i: int| 0 <= i < s.len() ==> !is_whitespace(#[trigger] s[i])
}

/// A token: non-empty and free of white space.
pub open spec fn is_token(s: Seq<char>) -> bool {
    s.len() > 0 && whitespace_free(s)
}

/// Length of the longest prefix of `s` that holds no white space.
pub open spec fn word_len(s: Seq<char>) -> nat
    decreases s.len(),
{
    if s.len() == 0 || is_whitespace(s[0]) {
        0
    } else {
        1 + word_len(s.drop_first())
    }
}

/// The maximal whitespace-free runs of `s`, from left to right.
pub open spec fn words(s: Seq<char>) -> Seq<Seq<char>>
    decreases s.len(),
    via words_decreases
{
    if s.len() == 0 {
        Seq::empty()
    } else if is_whitespace(s[0]) {
        words(s.drop_first())
    } else {
        seq![s.take(word_len(s) as int)] + words(s.skip(word_len(s) as int))
    }
}

#[via_fn]
proof fn words_decreases(s: Seq<char>) {
    lemma_word_len_bounds(s);
}

/// The run that `word_len` measures lies inside `s` and is not empty unless `s`
/// starts with white space or is empty.
pub proof fn lemma_word_len_bounds(s: Seq<char>)
    ensures
        word_len(s) <= s.len(),
        s.len() > 0 && !is_whitespace(s[0]) ==> word_len(s) >= 1,
    decreases s.len(),
{
    if s.len() > 0 && !is_whitespace(s[0]) {
        lemma_word_len_bounds(s.drop_first());
    }
}

/// `word_len` is the position of the first white space, or the length where there is none.
pub proof fn lemma_word_len_is(s: Seq<char>, n: int)
    requires
        0 <= n <= s.len(),
        forall|i: int| 0 <= i < n ==> !is_whitespace(#[trigger] s[i]),
        n == s.len() || is_whitespace(s[n]),
    ensures
        word_len(s) == n,
    decreases n,
{
    if n > 0 {
        let rest = s.drop_first();
        assert forall|i: int| 0 <= i < n - 1 implies !is_whitespace(#[trigger] rest[i]) by {
            assert(rest[i] == s[i + 1]);
        }
        lemma_word_len_is(rest, n - 1);
    }
}

/// Decides `is_whitespace`.
pub fn whitespace(c: char) -> (b: bool)
    ensures
        b == is_whitespace(c),
{
    let n: u32 = c as u32;
    (0x09 <= n && n <= 0x0D) || n == 0x20 || n == 0x85 || n == 0xA0 || n == 0x1680 || (0x2000 <= n
        && n <= 0x200A) || n == 0x2028 || n == 0x2029 || n == 0x202F || n == 0x205F || n == 0x3000
}

/// Unfolds `words` at a run of `m` characters without white space that ends at
/// white space or at the end of `t`.
pub proof fn lemma_words_at_run(t: Seq<char>, m: int)
    requires
        0 < m <= t.len(),
        forall|i: int| 0 <= i < m ==> !is_whitespace(#[trigger] t[i]),
        m == t.len() || is_whitespace(t[m]),
    ensures
        words(t) == seq![t.take(m)] + words(t.skip(m)),
{
    lemma_word_len_is(t, m);
}

/// Every element of `words(s)` is a token.
pub proof fn lemma_words_are_tokens(s: Seq<char>)
    ensures
        forall|i: int| 0 <= i < words(s).len() ==> is_token(#[trigger] words(s)[i]),
    decreases s.len(),
{
    if s.len() == 0 {
        assert(words(s).len() == 0);
    } else if is_whitespace(s[0]) {
        lemma_words_are_tokens(s.drop_first());
        assert(words(s) == words(s.drop_first()));
    } else {
        lemma_word_len_bounds(s);
        let n = word_len(s) as int;
        lemma_word_len_prefix_free(s);
        lemma_words_are_tokens(s.skip(n));
        let tail = words(s.skip(n));
        assert(words(s) == seq![s.take(n)] + tail);
        assert forall|i: int| 0 <= i < words(s).len() implies is_token(#[trigger] words(s)[i]) by {
            if i == 0 {
                assert(words(s)[0] == s.take(n));
            } else {
                assert(words(s)[i] == tail[i - 1]);
            }
        }
    }
}

/// The prefix that `word_len` measures holds no white space.
pub proof fn lemma_word_len_prefix_free(s: Seq<char>)
    ensures
        whitespace_free(s.take(word_len(s) as int)),
    decreases s.len(),
{
    lemma_word_len_bounds(s);
    if s.len() > 0 && !is_whitespace(s[0]) {
        let rest = s.drop_first();
        lemma_word_len_prefix_free(rest);
        lemma_word_len_bounds(rest);
        let n = word_len(s) as int;
        assert forall|i: int| 0 <= i < n implies !is_whitespace(#[trigger] s.take(n)[i]) by {
            if i > 0 {
                assert(s.take(n)[i] == rest.take(n - 1)[i - 1]);
            }
        }
    }
}

/// A token splits into itself.
pub proof fn lemma_words_of_token(s: Seq<char>)
    requires
        is_token(s),
    ensures
        words(s) == seq![s],
{
    lemma_words_at_run(s, s.len() as int);
    assert(s.take(s.len() as int) =~= s);
    assert(s.skip(s.len() as int) =~= Seq::<char>::empty());
    assert(words(s.skip(s.len() as int)) =~= Seq::<Seq<char>>::empty());
}

/// Whether two texts hold the same characters.
pub fn same_text(a: &str, b: &str) -> (r: bool)
    ensures
        r == (a@ == b@),
{
    a.to_owned() == b.to_owned()
}

/// The text `a` followed by the text `b`.
pub fn join(a: &str, b: &str) -> (r: String)
    ensures
        r@ == a@ + b@,
{
    let mut r = a.to_owned();
    r.append(b);
    r
}

/// Whether `s` ends with `suffix`.
pub fn ends_with(s: &str, suffix: &str) -> (r: bool)
    ensures
        r == suffix@.is_suffix_of(s@),
{
    let n = s.unicode_len();
    let m = suffix.unicode_len();
    if m > n {
        return false;
    }
    same_text(s.substring_char(n - m, n), suffix)
}

/// Splits `s` at white space, as `words` describes.
pub fn split_words(s: &str) -> (out: Vec<String>)
    ensures
        out.deep_view() == words(s@),
{
    let n = s.unicode_len();
    let mut out: Vec<String> = Vec::new();
    let mut start: usize = 0;
    let mut i: usize = 0;
    proof {
        assert(s@.skip(0) =~= s@);
        assert(out.deep_view() =~= Seq::<Seq<char>>::empty());
    }
    while i < n
        invariant
            n == s@.len(),
            start <= i <= n,
            forall|k: int| start <= k < i ==> !is_whitespace(#[trigger] s@[k]),
            words(s@) == out.deep_view() + words(s@.skip(start as int)),
        decreases n - i,
    {
        let c = s.get_char(i);
        if whitespace(c) {
            if start < i {
                let word = s.substring_char(start, i);
                let ghost before = out.deep_view();
                out.push(word.to_owned());
                proof {
                    let t = s@.skip(start as int);
                    let m = i - start;
                    lemma_words_at_run(t, m);
                    assert(t.take(m) =~= s@.subrange(start as int, i as int));
                    assert(t.skip(m) =~= s@.skip(i as int));
                    assert(out.deep_view() =~= before.push(word@));
                    assert(before + (seq![word@] + words(s@.skip(i as int))) =~= before.push(word@)
                        + words(s@.skip(i as int)));
                }
            }
            proof {
                assert(s@.skip(i as int).drop_first() =~= s@.skip(i + 1));
            }
            start = i + 1;
        }
        i += 1;
    }
    if start < n {
        let word = s.substring_char(start, n);
        let ghost before = out.deep_view();
        out.push(word.to_owned());
        proof {
            let t = s@.skip(start as int);
            let m = n - start;
            lemma_words_at_run(t, m);
            assert(t.take(m) =~= s@.subrange(start as int, n as int));
            assert(t.skip(m) =~= Seq::<char>::empty());
            assert(words(t.skip(m)) =~= Seq::<Seq<char>>::empty());
            assert(out.deep_view() =~= before.push(word@));
        }
    } else {
        proof {
            assert(s@.skip(start as int) =~= Seq::<char>::empty());
        }
    }
    out
}

} // verus!
