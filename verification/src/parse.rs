//! Splitting an input line into whitespace-delimited words.
//!
//! A token is a maximal run of non-whitespace characters. There is no
//! quoting and no escaping: a token containing whitespace cannot be
//! expressed, and runs of consecutive separators never yield empty tokens.

use vstd::prelude::*;
use vstd::string::StrSliceExecFns;

verus! {

/// Whether a character counts as a word separator.
pub uninterp spec fn is_ws(c: char) -> bool;

/// Relies on char::is_whitespace: whether the character has the Unicode
/// `White_Space` property, a function of the character alone.
pub assume_specification[ char::is_whitespace ](c: char) -> (r: bool)
    ensures
        r == is_ws(c),
;

/// Length of the maximal non-whitespace prefix of `s`.
pub open spec fn word_len(s: Seq<char>) -> nat
    decreases s.len(),
{
    if s.len() == 0 || is_ws(s[0]) {
        0
    } else {
        1 + word_len(s.drop_first())
    }
}

pub proof fn lemma_word_len_le(s: Seq<char>)
    ensures
        word_len(s) <= s.len(),
    decreases s.len(),
{
    if s.len() > 0 && !is_ws(s[0]) {
        lemma_word_len_le(s.drop_first());
    }
}

/// Every character inside the maximal word at the front of `s` is
/// non-whitespace.
pub proof fn lemma_word_prefix_not_ws(s: Seq<char>)
    ensures
        forall|k: int| 0 <= k < word_len(s) ==> !is_ws(s[k]),
    decreases s.len(),
{
    if s.len() > 0 && !is_ws(s[0]) {
        lemma_word_len_le(s);
        lemma_word_prefix_not_ws(s.drop_first());
        assert forall|k: int| 0 <= k < word_len(s) implies !is_ws(s[k]) by {
            if k > 0 {
                assert(s.drop_first()[k - 1] == s[k]);
            }
        }
    }
}

/// If the first `n` characters of `s` are not whitespace and position `n`
/// is the end of `s` or holds whitespace, then `n` is the maximal word
/// length.
pub proof fn lemma_word_len_at(s: Seq<char>, n: int)
    requires
        0 <= n <= s.len(),
        forall|k: int| 0 <= k < n ==> !is_ws(s[k]),
        n == s.len() || is_ws(s[n]),
    ensures
        word_len(s) == n,
    decreases n,
{
    if n == 0 {
    } else {
        assert(!is_ws(s[0]));
        let t = s.drop_first();
        assert forall|k: int| 0 <= k < n - 1 implies !is_ws(t[k]) by {
            assert(t[k] == s[k + 1]);
        }
        if n < s.len() {
            assert(t[n - 1] == s[n]);
        }
        lemma_word_len_at(t, n - 1);
    }
}

/// The whitespace-delimited words of `s`, in order.
pub open spec fn split_ws(s: Seq<char>) -> Seq<Seq<char>>
    decreases s.len(),
    via split_ws_decreases
{
    if s.len() == 0 {
        Seq::empty()
    } else if is_ws(s[0]) {
        split_ws(s.drop_first())
    } else {
        seq![s.take(word_len(s) as int)] + split_ws(s.skip(word_len(s) as int))
    }
}

#[via_fn]
proof fn split_ws_decreases(s: Seq<char>) {
    if s.len() > 0 && !is_ws(s[0]) {
        lemma_word_len_le(s);
    }
}

/// Splits a line into its whitespace-delimited words. Runs of consecutive
/// separators never yield empty tokens; there is no quoting or escaping.
pub fn tokenize(line: &str) -> (toks: Vec<&str>)
    ensures
        toks.deep_view() == split_ws(line@),
{
    let len = line.unicode_len();
    let mut toks: Vec<&str> = Vec::new();
    let mut i: usize = 0;
    proof {
        assert(line@.skip(0) =~= line@);
        assert(toks.deep_view() =~~= Seq::<Seq<char>>::empty());
        assert(toks.deep_view() + split_ws(line@) =~~= split_ws(line@));
    }
    while i < len
        invariant
            len == line@.len(),
            i <= len,
            split_ws(line@) == toks.deep_view() + split_ws(line@.skip(i as int)),
        decreases len - i,
    {
        let c = line.get_char(i);
        if c.is_whitespace() {
            proof {
                assert(line@.skip(i as int)[0] == line@[i as int]);
                assert(line@.skip(i as int).drop_first() =~= line@.skip(i as int + 1));
            }
            i = i + 1;
        } else {
            let ghost rest = line@.skip(i as int);
            let start = i;
            let mut j = i + 1;
            while j < len && !line.get_char(j).is_whitespace()
                invariant
                    len == line@.len(),
                    start < j <= len,
                    forall|k: int| start <= k < j ==> !is_ws(line@[k]),
                decreases len - j,
            {
                j = j + 1;
            }
            proof {
                assert forall|k: int| 0 <= k < j - start implies !is_ws(rest[k]) by {
                    assert(rest[k] == line@[k + start]);
                }
                if j < len {
                    assert(rest[j - start] == line@[j as int]);
                }
                lemma_word_len_at(rest, j - start);
                assert(rest[0] == line@[start as int]);
                assert(rest.take(j - start) =~= line@.subrange(start as int, j as int));
                assert(rest.skip(j - start) =~= line@.skip(j as int));
            }
            let word = line.substring_char(start, j);
            let ghost dv0 = toks.deep_view();
            toks.push(word);
            proof {
                assert(toks.deep_view() =~~= dv0 + seq![word@]);
                assert(word@ =~= rest.take(j - start));
                assert(split_ws(rest) == seq![word@] + split_ws(rest.skip(j - start)));
                assert(dv0 + (seq![word@] + split_ws(line@.skip(j as int))) =~~= (dv0
                    + seq![word@]) + split_ws(line@.skip(j as int)));
            }
            i = j;
        }
    }
    proof {
        assert(line@.skip(len as int) =~= Seq::<char>::empty());
        assert(toks.deep_view() + split_ws(line@.skip(len as int)) =~~= toks.deep_view());
    }
    toks
}

/// An empty line, or a line of only whitespace, has no words.
pub proof fn lemma_split_ws_all_whitespace(s: Seq<char>)
    requires
        forall|i: int| 0 <= i < s.len() ==> is_ws(s[i]),
    ensures
        split_ws(s) == Seq::<Seq<char>>::empty(),
    decreases s.len(),
{
    if s.len() > 0 {
        let t = s.drop_first();
        assert forall|i: int| 0 <= i < t.len() implies is_ws(t[i]) by {
            assert(t[i] == s[i + 1]);
        }
        lemma_split_ws_all_whitespace(t);
    }
}

/// A word: non-empty and free of whitespace.
pub open spec fn is_word(w: Seq<char>) -> bool {
    w.len() > 0 && (forall|k: int| 0 <= k < w.len() ==> !is_ws(w[k]))
}

/// Every token that splitting yields is a word, non-empty and holding no
/// whitespace character: runs of separators never produce empty tokens.
pub proof fn lemma_split_ws_words(s: Seq<char>)
    ensures
        forall|i: int| 0 <= i < split_ws(s).len() ==> is_word(#[trigger] split_ws(s)[i]),
    decreases s.len(),
{
    if s.len() == 0 {
    } else if is_ws(s[0]) {
        lemma_split_ws_words(s.drop_first());
        assert forall|i: int| 0 <= i < split_ws(s).len() implies is_word(
            #[trigger] split_ws(s)[i],
        ) by {
            assert(split_ws(s)[i] == split_ws(s.drop_first())[i]);
        }
    } else {
        let wl = word_len(s) as int;
        lemma_word_len_le(s);
        lemma_word_prefix_not_ws(s);
        lemma_split_ws_words(s.skip(wl));
        let w = s.take(wl);
        assert forall|k: int| 0 <= k < w.len() implies !is_ws(w[k]) by {
            assert(w[k] == s[k]);
        }
        assert(is_word(w));
        assert forall|i: int| 0 <= i < split_ws(s).len() implies is_word(
            #[trigger] split_ws(s)[i],
        ) by {
            if i == 0 {
                assert(split_ws(s)[0] == w);
            } else {
                assert(split_ws(s)[i] == split_ws(s.skip(wl))[i - 1]);
            }
        }
    }
}

/// Character-by-character equality of two string slices.
pub fn str_eq(a: &str, b: &str) -> (r: bool)
    ensures
        r == (a@ == b@),
{
    let alen = a.unicode_len();
    let blen = b.unicode_len();
    if alen != blen {
        return false;
    }
    let mut i: usize = 0;
    while i < alen
        invariant
            alen == a@.len(),
            blen == b@.len(),
            alen == blen,
            i <= alen,
            forall|k: int| 0 <= k < i ==> a@[k] == b@[k],
        decreases alen - i,
    {
        let ca = a.get_char(i);
        let cb = b.get_char(i);
        if ca != cb {
            return false;
        }
        i = i + 1;
    }
    proof {
        assert(a@ =~= b@);
    }
    true
}

} // verus!
