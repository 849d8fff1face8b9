//! Word counting by whitespace splitting.
//!
//! The prompt budget is measured in whitespace-delimited words: a word is a
//! maximal run of non-whitespace characters, and whitespace here is the ASCII
//! whitespace set. Counts are re-derived from the text on each call; nothing
//! is cached.

use vstd::prelude::*;

verus! {

/// Whitespace for word counting: the ASCII whitespace characters.
pub open spec fn is_space(c: char) -> bool {
    c == ' ' || c == '\n' || c == '\t' || c == '\r' || c == '\u{b}' || c == '\u{c}'
}

/// Index `i` begins a word: a non-space character standing at the start of the
/// text or right after a space.
pub open spec fn is_word_start(s: Seq<char>, i: int) -> bool {
    &&& 0 <= i < s.len()
    &&& !is_space(s[i])
    &&& (i == 0 || is_space(s[i - 1]))
}

/// Number of word starts among the first `n` characters of `s`.
pub open spec fn wc_prefix(s: Seq<char>, n: int) -> nat
    decreases n,
{
    if n <= 0 {
        0
    } else {
        wc_prefix(s, n - 1) + (if is_word_start(s, n - 1) {
            1nat
        } else {
            0nat
        })
    }
}

/// Number of whitespace-delimited words in `s`.
pub open spec fn word_count(s: Seq<char>) -> nat {
    wc_prefix(s, s.len() as int)
}

/// Every character of `s` is whitespace.
pub open spec fn all_space(s: Seq<char>) -> bool {
    forall|i: int| 0 <= i < s.len() ==> is_space(s[i])
}

/// Word counting looks only at the characters before `n`: two texts that
/// agree there have the same count of word starts.
proof fn lemma_wc_prefix_agree(s: Seq<char>, t: Seq<char>, n: int)
    requires
        n <= s.len(),
        n <= t.len(),
        forall|i: int| 0 <= i < n ==> s[i] == t[i],
    ensures
        wc_prefix(s, n) == wc_prefix(t, n),
    decreases n,
{
    if n > 0 {
        lemma_wc_prefix_agree(s, t, n - 1);
        assert(is_word_start(s, n - 1) == is_word_start(t, n - 1));
    }
}

/// Counting word starts of `s + t` up to `s.len() + m`, when `s` is empty or
/// ends in a space, splits into the counts of `s` and of `t`'s first `m`
/// characters.
proof fn lemma_wc_prefix_concat(s: Seq<char>, t: Seq<char>, m: int)
    requires
        0 <= m <= t.len(),
        s.len() == 0 || is_space(s.last()),
    ensures
        wc_prefix(s + t, s.len() + m) == wc_prefix(s, s.len() as int) + wc_prefix(t, m),
    decreases m,
{
    if m == 0 {
        lemma_wc_prefix_agree(s + t, s, s.len() as int);
    } else {
        lemma_wc_prefix_concat(s, t, m - 1);
        assert((s + t)[s.len() + m - 1] == t[m - 1]);
        if m == 1 {
            if s.len() > 0 {
                assert((s + t)[s.len() - 1] == s.last());
            }
            assert(is_word_start(s + t, s.len() as int + 0) == is_word_start(t, 0));
        } else {
            assert((s + t)[s.len() + m - 2] == t[m - 2]);
            assert(is_word_start(s + t, s.len() + m - 1) == is_word_start(t, m - 1));
        }
    }
}

/// Words split across a whitespace boundary: if `s` is empty or ends in a
/// space, the words of `s + t` are the words of `s` plus the words of `t`.
pub proof fn lemma_word_count_concat(s: Seq<char>, t: Seq<char>)
    requires
        s.len() == 0 || is_space(s.last()),
    ensures
        word_count(s + t) == word_count(s) + word_count(t),
{
    lemma_wc_prefix_concat(s, t, t.len() as int);
    assert((s + t).len() == s.len() + t.len());
}

/// Counting word starts of `s + ws` past the end of `s` finds none when every
/// added character is whitespace.
proof fn lemma_wc_prefix_space_ext(s: Seq<char>, ws: Seq<char>, m: int)
    requires
        0 <= m <= ws.len(),
        all_space(ws),
    ensures
        wc_prefix(s + ws, s.len() + m) == wc_prefix(s, s.len() as int),
    decreases m,
{
    if m == 0 {
        lemma_wc_prefix_agree(s + ws, s, s.len() as int);
    } else {
        lemma_wc_prefix_space_ext(s, ws, m - 1);
        assert((s + ws)[s.len() + m - 1] == ws[m - 1]);
        assert(!is_word_start(s + ws, s.len() + m - 1));
    }
}

/// Appending whitespace adds no word.
pub proof fn lemma_word_count_append_space(s: Seq<char>, ws: Seq<char>)
    requires
        all_space(ws),
    ensures
        word_count(s + ws) == word_count(s),
{
    lemma_wc_prefix_space_ext(s, ws, ws.len() as int);
}

fn is_space_char(c: char) -> (b: bool)
    ensures
        b == is_space(c),
{
    c == ' ' || c == '\n' || c == '\t' || c == '\r' || c == '\u{b}' || c == '\u{c}'
}

/// Count the whitespace-delimited words of `s`.
pub fn count_words(s: &str) -> (n: usize)
    ensures
        n as nat == word_count(s@),
{
    let len = s.unicode_len();
    let mut i: usize = 0;
    let mut n: usize = 0;
    let mut prev_space: bool = true;
    while i < len
        invariant
            len == s@.len(),
            i <= len,
            n <= i,
            n as nat == wc_prefix(s@, i as int),
            prev_space == (i == 0 || is_space(s@[i as int - 1])),
        decreases len - i,
    {
        let c = s.get_char(i);
        let sp = is_space_char(c);
        if !sp && prev_space {
            n = n + 1;
        }
        prev_space = sp;
        i = i + 1;
    }
    n
}

} // verus!
