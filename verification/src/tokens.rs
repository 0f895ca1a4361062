//! Splitting a line of text into whitespace-separated tokens.
//!
//! A token is a maximal run of characters none of which is ASCII whitespace.
//! The model is `tokens`, a function from a character sequence to the
//! sequence of its tokens in order of appearance; `next_token` is the
//! executable cursor over it.

use vstd::prelude::*;
use vstd::string::*;

verus! {

/// The five characters that separate tokens: space, horizontal tab, line
/// feed, form feed and carriage return.
pub open spec fn is_ascii_whitespace(c: char) -> bool {
    c == ' ' || c == '\t' || c == '\n' || c == '\x0C' || c == '\r'
}

/// True when no character of `s` is ASCII whitespace.
pub open spec fn no_whitespace(s: Seq<char>) -> bool {
    forall|i: int| 0 <= i < s.len() ==> !is_ascii_whitespace(#[trigger] s[i])
}

/// A word is a non-empty sequence free of whitespace: what a token is.
pub open spec fn is_word(s: Seq<char>) -> bool {
    s.len() > 0 && no_whitespace(s)
}

/// True when every character of `s` is ASCII whitespace.
pub open spec fn all_whitespace(s: Seq<char>) -> bool {
    forall|i: int| 0 <= i < s.len() ==> is_ascii_whitespace(#[trigger] s[i])
}

/// The number of characters before the first whitespace character of `s`,
/// or the length of `s` if it holds none.
pub open spec fn word_len(s: Seq<char>) -> nat
    decreases s.len(),
{
    if s.len() == 0 || is_ascii_whitespace(s[0]) {
        0
    } else {
        1 + word_len(s.drop_first())
    }
}

/// The tokens of `s`, in order.
pub open spec fn tokens(s: Seq<char>) -> Seq<Seq<char>>
    decreases s.len(),
    via tokens_decreases
{
    if s.len() == 0 {
        Seq::empty()
    } else if is_ascii_whitespace(s[0]) {
        tokens(s.drop_first())
    } else {
        seq![s.take(word_len(s) as int)] + tokens(s.skip(word_len(s) as int))
    }
}

#[via_fn]
proof fn tokens_decreases(s: Seq<char>) {
    if s.len() != 0 && !is_ascii_whitespace(s[0]) {
        lemma_word_len_bounds(s);
    }
}

/// `word_len` stays within the sequence, stops at a whitespace character or
/// at the end, and passes over none.
pub proof fn lemma_word_len_bounds(s: Seq<char>)
    ensures
        word_len(s) <= s.len(),
        s.len() > 0 && !is_ascii_whitespace(s[0]) ==> word_len(s) >= 1,
        word_len(s) < s.len() ==> is_ascii_whitespace(s[word_len(s) as int]),
        no_whitespace(s.take(word_len(s) as int)),
    decreases s.len(),
{
    if s.len() == 0 || is_ascii_whitespace(s[0]) {
    } else {
        let rest = s.drop_first();
        lemma_word_len_bounds(rest);
        let n = word_len(s) as int;
        assert forall|i: int| 0 <= i < n implies !is_ascii_whitespace(
            #[trigger] s.take(n)[i],
        ) by {
            if i > 0 {
                assert(s.take(n)[i] == rest.take(n - 1)[i - 1]);
            }
        }
    }
}

/// A run of non-whitespace characters that ends the sequence or is followed
/// by whitespace is exactly what `word_len` measures.
pub proof fn lemma_word_len_is(s: Seq<char>, n: int)
    requires
        0 <= n <= s.len(),
        no_whitespace(s.take(n)),
        n < s.len() ==> is_ascii_whitespace(s[n]),
    ensures
        word_len(s) == n,
    decreases n,
{
    if n == 0 {
    } else {
        assert(s.take(n)[0] == s[0]);
        let rest = s.drop_first();
        assert forall|i: int| 0 <= i < n - 1 implies !is_ascii_whitespace(
            #[trigger] rest.take(n - 1)[i],
        ) by {
            assert(rest.take(n - 1)[i] == s.take(n)[i + 1]);
        }
        lemma_word_len_is(rest, n - 1);
    }
}

/// Whitespace in front of a sequence adds no token.
pub proof fn lemma_tokens_skip_whitespace(s: Seq<char>, n: int)
    requires
        0 <= n <= s.len(),
        all_whitespace(s.take(n)),
    ensures
        tokens(s) == tokens(s.skip(n)),
    decreases n,
{
    if n == 0 {
        assert(s.skip(0) =~= s);
    } else {
        assert(s.take(n)[0] == s[0]);
        let rest = s.drop_first();
        assert forall|i: int| 0 <= i < n - 1 implies is_ascii_whitespace(
            #[trigger] rest.take(n - 1)[i],
        ) by {
            assert(rest.take(n - 1)[i] == s.take(n)[i + 1]);
        }
        lemma_tokens_skip_whitespace(rest, n - 1);
        assert(rest.skip(n - 1) =~= s.skip(n));
    }
}

/// A sequence of whitespace alone has no token.
pub proof fn lemma_tokens_of_whitespace(s: Seq<char>)
    requires
        all_whitespace(s),
    ensures
        tokens(s) == Seq::<Seq<char>>::empty(),
{
    assert(s.take(s.len() as int) =~= s);
    lemma_tokens_skip_whitespace(s, s.len() as int);
    assert(s.skip(s.len() as int) =~= Seq::<char>::empty());
}

/// Where `s` is whitespace up to `start`, free of whitespace from `start` to
/// `end`, and ends or holds whitespace at `end`, its first token is the run
/// from `start` to `end` and its other tokens are those of what follows.
pub proof fn lemma_tokens_first(s: Seq<char>, start: int, end: int)
    requires
        0 <= start < end <= s.len(),
        all_whitespace(s.take(start)),
        no_whitespace(s.subrange(start, end)),
        end < s.len() ==> is_ascii_whitespace(s[end]),
    ensures
        tokens(s) == seq![s.subrange(start, end)] + tokens(s.skip(end)),
{
    let t = s.skip(start);
    lemma_tokens_skip_whitespace(s, start);
    assert(t.take(end - start) =~= s.subrange(start, end));
    lemma_word_len_is(t, end - start);
    assert(t.skip(end - start) =~= s.skip(end));
}

/// Every token is a word.
pub proof fn lemma_tokens_are_words(s: Seq<char>)
    ensures
        forall|k: int| 0 <= k < tokens(s).len() ==> is_word(#[trigger] tokens(s)[k]),
    decreases s.len(),
{
    if s.len() == 0 {
    } else if is_ascii_whitespace(s[0]) {
        lemma_tokens_are_words(s.drop_first());
        assert(tokens(s) == tokens(s.drop_first()));
    } else {
        lemma_word_len_bounds(s);
        let others = tokens(s.skip(word_len(s) as int));
        lemma_tokens_are_words(s.skip(word_len(s) as int));
        assert forall|k: int| 0 <= k < tokens(s).len() implies is_word(#[trigger] tokens(s)[k]) by {
            if k > 0 {
                assert(tokens(s)[k] == others[k - 1]);
            }
        }
    }
}

/// A non-empty word followed by one whitespace character and more text is
/// the first token of the whole; the other tokens are those of the text.
pub proof fn lemma_tokens_word_then(word: Seq<char>, sep: char, rest: Seq<char>)
    requires
        word.len() > 0,
        no_whitespace(word),
        is_ascii_whitespace(sep),
    ensures
        tokens(word + seq![sep] + rest) == seq![word] + tokens(rest),
{
    let s = word + seq![sep] + rest;
    let n = word.len() as int;
    assert(s.subrange(0, n) =~= word);
    assert(s[n] == sep);
    lemma_tokens_first(s, 0, n);
    let after = s.skip(n);
    assert(after[0] == sep);
    assert(after.drop_first() =~= rest);
}

/// A non-empty word alone is its own single token.
pub proof fn lemma_tokens_single_word(word: Seq<char>)
    requires
        word.len() > 0,
        no_whitespace(word),
    ensures
        tokens(word) == seq![word],
{
    let n = word.len() as int;
    assert(word.subrange(0, n) =~= word);
    lemma_tokens_first(word, 0, n);
    assert(word.skip(n) =~= Seq::<char>::empty());
}

/// The words in order, with `sep` between each two.
pub open spec fn join(words: Seq<Seq<char>>, sep: char) -> Seq<char>
    decreases words.len(),
{
    if words.len() == 0 {
        Seq::empty()
    } else if words.len() == 1 {
        words[0]
    } else {
        words[0] + seq![sep] + join(words.drop_first(), sep)
    }
}

/// Splitting undoes joining: the tokens of words joined by a whitespace
/// character are those words.
pub proof fn lemma_tokens_of_join(words: Seq<Seq<char>>, sep: char)
    requires
        is_ascii_whitespace(sep),
        forall|k: int| 0 <= k < words.len() ==> is_word(#[trigger] words[k]),
    ensures
        tokens(join(words, sep)) == words,
    decreases words.len(),
{
    if words.len() == 0 {
        assert(tokens(join(words, sep)) =~= words);
    } else if words.len() == 1 {
        assert(is_word(words[0]));
        lemma_tokens_single_word(words[0]);
        assert(seq![words[0]] =~= words);
    } else {
        let rest = words.drop_first();
        assert(is_word(words[0]));
        assert forall|k: int| 0 <= k < rest.len() implies is_word(#[trigger] rest[k]) by {
            assert(rest[k] == words[k + 1]);
        }
        lemma_tokens_of_join(rest, sep);
        lemma_tokens_word_then(words[0], sep, join(rest, sep));
        assert(seq![words[0]] + rest =~= words);
    }
}

/// Whether `c` is one of the five separating characters.
pub fn is_separator(c: char) -> (b: bool)
    ensures
        b == is_ascii_whitespace(c),
{
    c == ' ' || c == '\t' || c == '\n' || c == '\x0C' || c == '\r'
}

/// Where a scan of a text for its first token stands.
enum Scan {
    /// Only whitespace so far.
    Before,
    /// In the token, which began at `start`.
    Inside { start: usize },
    /// Past the token, which ran from `start` to `end`.
    After { start: usize, end: usize },
}

/// Cuts the first token off `text`.
///
/// Returns `None` when `text` holds no token. Otherwise returns the first
/// token and the text that follows it, whose tokens are the remaining ones:
/// `text` is whitespace, then the token, then the rest.
pub fn next_token<'a>(text: &'a str) -> (r: Option<(&'a str, &'a str)>)
    ensures
        tokens(text@).len() == 0 <==> r is None,
        r matches Some((token, rest)) ==> {
            &&& token@ == tokens(text@)[0]
            &&& tokens(rest@) == tokens(text@).drop_first()
            &&& exists|start: int|
                0 <= start <= text@.len() && all_whitespace(#[trigger] text@.take(start))
                    && text@.skip(start) == token@ + rest@
        },
{
    let total: usize = text.unicode_len();
    let mut i: usize = 0;
    let mut scan: Scan = Scan::Before;
    for c in it: text.chars()
        invariant
            i == it.index(),
            it.seq() == text@,
            total == text@.len(),
            match scan {
                Scan::Before => all_whitespace(text@.take(i as int)),
                Scan::Inside { start } => {
                    &&& start < i
                    &&& all_whitespace(text@.take(start as int))
                    &&& no_whitespace(text@.subrange(start as int, i as int))
                },
                Scan::After { start, end } => {
                    &&& start < end < i
                    &&& all_whitespace(text@.take(start as int))
                    &&& no_whitespace(text@.subrange(start as int, end as int))
                    &&& is_ascii_whitespace(text@[end as int])
                },
            },
    {
        let separates: bool = is_separator(c);
        match scan {
            Scan::Before => {
                if separates {
                    assert forall|j: int| 0 <= j < i + 1 implies is_ascii_whitespace(
                        #[trigger] text@.take(i + 1)[j],
                    ) by {
                        if j < i {
                            assert(text@.take(i + 1)[j] == text@.take(i as int)[j]);
                        }
                    }
                } else {
                    scan = Scan::Inside { start: i };
                }
            },
            Scan::Inside { start } => {
                if separates {
                    scan = Scan::After { start, end: i };
                } else {
                    assert forall|j: int| 0 <= j < i + 1 - start implies !is_ascii_whitespace(
                        #[trigger] text@.subrange(start as int, i + 1)[j],
                    ) by {
                        if j < i - start {
                            assert(text@.subrange(start as int, i + 1)[j] == text@.subrange(
                                start as int,
                                i as int,
                            )[j]);
                        }
                    }
                }
            },
            Scan::After { .. } => {},
        }
        i = i + 1;
    }
    let (start, end): (usize, usize) = match scan {
        Scan::Before => {
            proof {
                assert(text@.take(i as int) =~= text@);
                lemma_tokens_of_whitespace(text@);
            }
            return None;
        },
        Scan::Inside { start } => (start, total),
        Scan::After { start, end } => (start, end),
    };
    proof {
        lemma_tokens_first(text@, start as int, end as int);
        let first = seq![text@.subrange(start as int, end as int)];
        let others = tokens(text@.skip(end as int));
        assert((first + others).drop_first() =~= others);
        assert(text@.skip(end as int) =~= text@.subrange(end as int, total as int));
        assert(text@.skip(start as int) =~= text@.subrange(start as int, end as int) + text@.skip(
            end as int,
        ));
    }
    let token: &'a str = text.substring_char(start, end);
    let rest: &'a str = text.substring_char(end, total);
    Some((token, rest))
}

} // verus!
