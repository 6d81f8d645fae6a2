use vstd::prelude::*;
use vstd::std_specs::iter::IteratorSpec;
use crate::text::texts;

verus! {

/// Whether `c` has the Unicode property `White_Space`.
pub open spec fn is_whitespace(c: char) -> bool {
    ||| '\u{0009}' <= c <= '\u{000D}'
    ||| c == '\u{0020}'
    ||| c == '\u{0085}'
    ||| c == '\u{00A0}'
    ||| c == '\u{1680}'
    ||| '\u{2000}' <= c <= '\u{200A}'
    ||| c == '\u{2028}'
    ||| c == '\u{2029}'
    ||| c == '\u{202F}'
    ||| c == '\u{205F}'
    ||| c == '\u{3000}'
}

/// The length of the longest prefix of `s` that holds no whitespace.
pub open spec fn word_len(s: Seq<char>) -> nat
    decreases s.len(),
{
    if s.len() == 0 || is_whitespace(s[0]) {
        0
    } else {
        1 + word_len(s.skip(1))
    }
}

/// The words of `s`: its maximal runs of characters that are not
/// whitespace, in the order in which they occur. Whitespace only separates:
/// no word is empty, and leading and trailing whitespace yields nothing.
pub open spec fn split_whitespace(s: Seq<char>) -> Seq<Seq<char>>
    decreases s.len(),
{
    if s.len() == 0 {
        Seq::empty()
    } else if is_whitespace(s[0]) {
        split_whitespace(s.skip(1))
    } else {
        let n = word_len(s) as int;
        proof {
            lemma_word_len_bounds(s);
        }
        seq![s.take(n)] + split_whitespace(s.skip(n))
    }
}

/// The first word of `s` ends inside `s`, and is not empty when `s` starts
/// with a character that is not whitespace.
pub proof fn lemma_word_len_bounds(s: Seq<char>)
    ensures
        word_len(s) <= s.len(),
        s.len() > 0 && !is_whitespace(s[0]) ==> word_len(s) >= 1,
        forall|i: int| 0 <= i < word_len(s) ==> !is_whitespace(#[trigger] s[i]),
        word_len(s) < s.len() ==> is_whitespace(s[word_len(s) as int]),
    decreases s.len(),
{
    if s.len() > 0 && !is_whitespace(s[0]) {
        let t = s.skip(1);
        lemma_word_len_bounds(t);
        assert forall|i: int| 0 <= i < word_len(s) implies !is_whitespace(#[trigger] s[i]) by {
            if i > 0 {
                assert(s[i] == t[i - 1]);
            }
        }
        if word_len(s) < s.len() {
            assert(s[word_len(s) as int] == t[word_len(t) as int]);
        }
    }
}

/// No word of `split_whitespace(s)` is empty, and none holds whitespace.
pub proof fn lemma_words_hold_no_whitespace(s: Seq<char>)
    ensures
        forall|k: int|
            0 <= k < split_whitespace(s).len() ==> (#[trigger] split_whitespace(s)[k]).len() > 0,
        forall|k: int, i: int|
            0 <= k < split_whitespace(s).len() && 0 <= i < split_whitespace(s)[k].len()
                ==> !is_whitespace(#[trigger] split_whitespace(s)[k][i]),
    decreases s.len(),
{
    if s.len() == 0 {
        assert(split_whitespace(s).len() == 0);
    } else if is_whitespace(s[0]) {
        lemma_words_hold_no_whitespace(s.skip(1));
        assert(split_whitespace(s) == split_whitespace(s.skip(1)));
    } else {
        let n = word_len(s) as int;
        lemma_word_len_bounds(s);
        lemma_words_hold_no_whitespace(s.skip(n));
        let rest = split_whitespace(s.skip(n));
        let all = split_whitespace(s);
        assert(all =~= seq![s.take(n)] + rest);
        assert forall|k: int| 0 <= k < all.len() implies (#[trigger] all[k]).len() > 0 by {
            if k > 0 {
                assert(all[k] == rest[k - 1]);
            }
        }
        assert forall|k: int, i: int|
            0 <= k < all.len() && 0 <= i < all[k].len() implies !is_whitespace(
            #[trigger] all[k][i],
        ) by {
            if k > 0 {
                assert(all[k] == rest[k - 1]);
            } else {
                assert(all[0][i] == s[i]);
            }
        }
    }
}

/// Whether `c` has the Unicode property `White_Space`.
pub fn is_whitespace_char(c: char) -> (r: bool)
    ensures
        r == is_whitespace(c),
{
    ('\u{0009}' <= c && c <= '\u{000D}') || c == '\u{0020}' || c == '\u{0085}' || c == '\u{00A0}'
        || c == '\u{1680}' || ('\u{2000}' <= c && c <= '\u{200A}') || c == '\u{2028}' || c
        == '\u{2029}' || c == '\u{202F}' || c == '\u{205F}' || c == '\u{3000}'
}

/// What is left to split once a word has been started: the word goes on
/// for as long as `rest` holds no whitespace, and the splitting resumes
/// behind it.
spec fn pending(word: Seq<char>, rest: Seq<char>) -> Seq<Seq<char>> {
    if word.len() == 0 {
        split_whitespace(rest)
    } else {
        let n = word_len(rest) as int;
        seq![word + rest.take(n)] + split_whitespace(rest.skip(n))
    }
}

proof fn lemma_pending_step(word: Seq<char>, rest: Seq<char>)
    requires
        rest.len() > 0,
    ensures
        is_whitespace(rest[0]) && word.len() == 0 ==> pending(word, rest) == pending(
            word,
            rest.skip(1),
        ),
        is_whitespace(rest[0]) && word.len() > 0 ==> pending(word, rest) == seq![word] + pending(
            Seq::empty(),
            rest.skip(1),
        ),
        !is_whitespace(rest[0]) ==> pending(word, rest) == pending(
            word.push(rest[0]),
            rest.skip(1),
        ),
{
    let tail = rest.skip(1);
    if is_whitespace(rest[0]) {
        if word.len() > 0 {
            assert(rest.take(0) =~= Seq::<char>::empty());
            assert(word + rest.take(0) =~= word);
            assert(rest.skip(0) =~= rest);
        }
    } else {
        let n = word_len(rest) as int;
        lemma_word_len_bounds(rest);
        lemma_word_len_bounds(tail);
        assert(n == 1 + word_len(tail));
        assert(word + rest.take(n) =~= word.push(rest[0]) + tail.take(n - 1));
        assert(rest.skip(n) =~= tail.skip(n - 1));
        if word.len() == 0 {
            assert(rest.take(n) =~= word + rest.take(n));
        }
    }
}

/// Splits `s` on runs of Unicode whitespace.
pub fn whitespace_tokens(s: &str) -> (r: Vec<String>)
    ensures
        texts(r@) == split_whitespace(s@),
{
    let mut out: Vec<String> = Vec::new();
    let mut word = String::new();
    proof {
        assert(s@.skip(0) =~= s@);
        assert(texts(out@) + split_whitespace(s@) =~= split_whitespace(s@));
    }
    for c in it: s.chars()
        invariant
            it.seq() == s@,
            texts(out@) + pending(word@, s@.skip(it.index() as int)) == split_whitespace(s@),
    {
        proof {
            let rest = s@.skip(it.index() as int);
            assert(rest[0] == c);
            assert(rest.skip(1) =~= s@.skip(it.index() + 1));
            lemma_pending_step(word@, rest);
        }
        if is_whitespace_char(c) {
            if !word.as_str().is_empty() {
                let ghost before = texts(out@);
                let ghost done = word@;
                out.push(word);
                word = String::new();
                proof {
                    assert(texts(out@) =~= before + seq![done]);
                    let tail = pending(Seq::empty(), s@.skip(it.index() + 1));
                    assert(before + (seq![done] + tail) =~= (before + seq![done]) + tail);
                }
            }
        } else {
            word.push(c);
        }
    }
    proof {
        let rest = s@.skip(s@.len() as int);
        assert(rest =~= Seq::<char>::empty());
        assert(rest.take(0) =~= Seq::<char>::empty());
        assert(word@ + rest.take(0) =~= word@);
    }
    if !word.as_str().is_empty() {
        let ghost before = texts(out@);
        let ghost done = word@;
        out.push(word);
        proof {
            assert(texts(out@) =~= before + seq![done]);
            assert(before + (seq![done] + Seq::<Seq<char>>::empty()) =~= before + seq![done]);
        }
    } else {
        proof {
            assert(texts(out@) + Seq::<Seq<char>>::empty() =~= texts(out@));
        }
    }
    out
}

} // verus!
