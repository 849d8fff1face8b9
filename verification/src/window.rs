//! The context window builder.
//!
//! For each new user turn it selects the longest contiguous suffix of the
//! history (newest entries first) whose rendered word count, together with
//! the fixed prompt parts, stays within the conversation's word budget. The
//! walk is greedy and stops at the first record that does not fit, even when
//! older, smaller records would: that stopping rule is part of the contract,
//! not an accident.

use vstd::prelude::*;

use crate::conversation::Conversation;
use crate::correspondence::Correspondence;
use crate::correspondence::render_spec;
use crate::prompt::history_block;
use crate::words::all_space;
use crate::words::count_words;
use crate::words::lemma_word_count_append_space;
use crate::words::lemma_word_count_concat;
use crate::words::word_count;

verus! {

/// The word cost of one history record: the words of its rendered block.
pub open spec fn entry_words(c: Correspondence) -> nat {
    word_count(render_spec(c))
}

/// The greedy walk, newest record first: how many records of `h` are
/// accepted when `used` words are already spoken for and the budget is
/// `max`. A record is accepted only if it fits whole; the first record that
/// does not fit ends the walk.
pub open spec fn sel_count(h: Seq<Correspondence>, used: nat, max: nat) -> nat
    decreases h.len(),
{
    if h.len() == 0 {
        0
    } else if used + entry_words(h.last()) <= max {
        1 + sel_count(h.drop_last(), used + entry_words(h.last()), max)
    } else {
        0
    }
}

/// Words of the fixed prompt parts: system prompt, context, and the current
/// user input. Headers and separators are whitespace-delimited and add no
/// cost here.
pub open spec fn base_words(c: Conversation, user_input: Seq<char>) -> nat {
    word_count(c.system_prompt@) + word_count(c.context@) + word_count(user_input)
}

/// How many history records the builder selects for this turn.
pub open spec fn window_len_spec(c: Conversation, user_input: Seq<char>) -> nat {
    sel_count(c.history@, base_words(c, user_input), c.max_context_length_words as nat)
}

/// The selected records: a contiguous suffix of the history, chronological
/// order kept.
pub open spec fn selected_suffix(c: Conversation, user_input: Seq<char>) -> Seq<Correspondence> {
    c.history@.subrange(
        c.history@.len() - window_len_spec(c, user_input),
        c.history@.len() as int,
    )
}

/// Total word cost of a run of records.
pub open spec fn sum_words(h: Seq<Correspondence>) -> nat
    decreases h.len(),
{
    if h.len() == 0 {
        0
    } else {
        sum_words(h.drop_last()) + entry_words(h.last())
    }
}

proof fn lemma_sel_count_le(h: Seq<Correspondence>, used: nat, max: nat)
    ensures
        sel_count(h, used, max) <= h.len(),
    decreases h.len(),
{
    if h.len() > 0 && used + entry_words(h.last()) <= max {
        lemma_sel_count_le(h.drop_last(), used + entry_words(h.last()), max);
    }
}

proof fn lemma_sel_budget(h: Seq<Correspondence>, used: nat, max: nat)
    requires
        used <= max,
    ensures
        sel_count(h, used, max) <= h.len(),
        used + sum_words(
            h.subrange(h.len() - sel_count(h, used, max), h.len() as int),
        ) <= max,
    decreases h.len(),
{
    lemma_sel_count_le(h, used, max);
    let k = sel_count(h, used, max);
    if h.len() == 0 || used + entry_words(h.last()) > max {
        assert(h.subrange(h.len() - k, h.len() as int) =~= Seq::<Correspondence>::empty());
    } else {
        let w = entry_words(h.last());
        let h2 = h.drop_last();
        let k2 = sel_count(h2, used + w, max);
        lemma_sel_budget(h2, used + w, max);
        let s = h.subrange(h.len() - k, h.len() as int);
        assert(s.drop_last() =~= h2.subrange(h2.len() - k2, h2.len() as int));
        assert(s.last() == h.last());
    }
}

/// Budget invariant: when the fixed prompt parts fit the budget at all, the
/// selected history, rendered as its blank-line-separated block, fits
/// together with them: base words plus the block's words never exceed
/// `max_context_length_words`.
pub proof fn lemma_budget_invariant(c: Conversation, user_input: Seq<char>)
    requires
        base_words(c, user_input) <= c.max_context_length_words,
    ensures
        base_words(c, user_input) + word_count(history_block(selected_suffix(c, user_input)))
            <= c.max_context_length_words,
{
    lemma_sel_budget(
        c.history@,
        base_words(c, user_input),
        c.max_context_length_words as nat,
    );
    lemma_block_words(selected_suffix(c, user_input));
}

/// The rendered history block weighs exactly the sum of its records' word
/// costs: the blank-line separators add no words.
pub proof fn lemma_block_words(h: Seq<Correspondence>)
    ensures
        word_count(history_block(h)) == sum_words(h),
    decreases h.len(),
{
    reveal_strlit("\n\n");
    if h.len() == 0 {
        assert(word_count(Seq::<char>::empty()) == 0);
        assert(sum_words(h) == 0);
        assert(history_block(h) == Seq::<char>::empty());
    } else if h.len() == 1 {
        assert(h.drop_last() =~= Seq::<Correspondence>::empty());
        assert(h.last() == h[0]);
        assert(sum_words(h) == sum_words(h.drop_last()) + entry_words(h.last()));
        assert(sum_words(h.drop_last()) == 0);
        assert(sum_words(h) == entry_words(h[0]));
        assert(history_block(h) == render_spec(h[0]));
    } else {
        assert(sum_words(h) == sum_words(h.drop_last()) + entry_words(h.last()));
        let b = history_block(h.drop_last());
        let sep = "\n\n"@;
        lemma_block_words(h.drop_last());
        assert(all_space(sep)) by {
            assert(sep.len() == 2);
            assert(sep[0] == '\n' && sep[1] == '\n');
        }
        lemma_word_count_append_space(b, sep);
        assert((b + sep).last() == '\n');
        lemma_word_count_concat(b + sep, render_spec(h.last()));
        assert(history_block(h) == b + sep + render_spec(h.last()));
        assert(word_count(b + sep + render_spec(h.last())) == word_count(b) + word_count(
            render_spec(h.last()),
        ));
    }
}

/// The selection is a contiguous suffix of the history: a record is selected
/// only when every more recent record is selected too, and each selected
/// record is the history's own, in chronological order.
pub proof fn lemma_selected_is_suffix(c: Conversation, user_input: Seq<char>)
    ensures
        window_len_spec(c, user_input) <= c.history@.len(),
        selected_suffix(c, user_input).len() == window_len_spec(c, user_input),
        forall|i: int|
            0 <= i < window_len_spec(c, user_input) ==> selected_suffix(c, user_input)[i]
                == c.history@[c.history@.len() - window_len_spec(c, user_input) + i],
{
    lemma_sel_count_le(
        c.history@,
        base_words(c, user_input),
        c.max_context_length_words as nat,
    );
}

proof fn lemma_sel_stops(h: Seq<Correspondence>, used: nat, max: nat)
    ensures
        sel_count(h, used, max) <= h.len(),
        sel_count(h, used, max) < h.len() ==> used + sum_words(
            h.subrange(h.len() - sel_count(h, used, max), h.len() as int),
        ) + entry_words(h[h.len() - sel_count(h, used, max) - 1]) > max,
    decreases h.len(),
{
    lemma_sel_count_le(h, used, max);
    let k = sel_count(h, used, max);
    if h.len() == 0 {
    } else if used + entry_words(h.last()) > max {
        assert(h.subrange(h.len() - k, h.len() as int) =~= Seq::<Correspondence>::empty());
        assert(h[h.len() - 1] == h.last());
    } else {
        let w = entry_words(h.last());
        let h2 = h.drop_last();
        let k2 = sel_count(h2, used + w, max);
        lemma_sel_stops(h2, used + w, max);
        if k < h.len() {
            let s = h.subrange(h.len() - k, h.len() as int);
            assert(s.drop_last() =~= h2.subrange(h2.len() - k2, h2.len() as int));
            assert(s.last() == h.last());
            assert(h[h.len() - k - 1] == h2[h2.len() - k2 - 1]);
        }
    }
}

/// Stop on first miss: when the walk rejects a record, that record together
/// with the base words and everything already accepted is over budget — and
/// since the selection is the suffix of the accepted records alone, every
/// older record is excluded with it.
pub proof fn lemma_stop_on_first_miss(c: Conversation, user_input: Seq<char>)
    ensures
        window_len_spec(c, user_input) < c.history@.len() ==> base_words(c, user_input)
            + sum_words(selected_suffix(c, user_input)) + entry_words(
            c.history@[c.history@.len() - window_len_spec(c, user_input) - 1],
        ) > c.max_context_length_words,
{
    lemma_sel_stops(
        c.history@,
        base_words(c, user_input),
        c.max_context_length_words as nat,
    );
}

impl Conversation {
    /// How many of the newest history records fit the word budget for this
    /// turn, by the greedy newest-first walk with its stop-on-first-miss
    /// rule. Zero when the fixed parts alone meet or exceed the budget.
    pub fn context_window_len(&self, user_input: &str) -> (k: usize)
        ensures
            k as nat == window_len_spec(*self, user_input@),
            k <= self.history@.len(),
    {
        let ghost h = self.history@;
        let ghost max_g = self.max_context_length_words as nat;
        let b_sys = count_words(self.system_prompt.as_str());
        let b_ctx = count_words(self.context.as_str());
        let b_in = count_words(user_input);
        let ghost base = base_words(*self, user_input@);
        let mut remaining = self.max_context_length_words;
        if b_sys > remaining {
            proof {
                lemma_sel_count_over(h, base, max_g);
                lemma_sel_count_le(h, base, max_g);
            }
            return 0;
        }
        remaining = remaining - b_sys;
        if b_ctx > remaining {
            proof {
                lemma_sel_count_over(h, base, max_g);
                lemma_sel_count_le(h, base, max_g);
            }
            return 0;
        }
        remaining = remaining - b_ctx;
        if b_in > remaining {
            proof {
                lemma_sel_count_over(h, base, max_g);
                lemma_sel_count_le(h, base, max_g);
            }
            return 0;
        }
        remaining = remaining - b_in;
        let ghost mut used: nat = base;
        let n = self.history.len();
        let mut k: usize = 0;
        proof {
            assert(h.take(n as int) =~= h);
        }
        while k < n
            invariant
                h == self.history@,
                max_g == self.max_context_length_words as nat,
                n == h.len(),
                k <= n,
                used <= max_g,
                remaining == max_g - used,
                window_len_spec(*self, user_input@) == k + sel_count(
                    h.take(n - k),
                    used,
                    max_g,
                ),
            decreases n - k,
        {
            let idx = n - 1 - k;
            let block = self.history[idx].to_string();
            let w = count_words(block.as_str());
            proof {
                assert(h.take(n - k).last() == h[idx as int]);
            }
            if w > remaining {
                proof {
                    assert(sel_count(h.take(n - k), used, max_g) == 0);
                }
                return k;
            }
            proof {
                assert(h.take(n - k).drop_last() =~= h.take(n - k - 1));
                assert(sel_count(h.take(n - k), used, max_g) == 1 + sel_count(
                    h.take(n - k - 1),
                    used + entry_words(h[idx as int]),
                    max_g,
                ));
                used = used + entry_words(h[idx as int]);
            }
            remaining = remaining - w;
            k = k + 1;
        }
        proof {
            assert(h.take(0) =~= Seq::<Correspondence>::empty());
        }
        k
    }

    /// The records the builder selects for this turn: copies of the newest
    /// records that fit, oldest of them first. The history itself is left
    /// untouched; trimming is only this view.
    pub fn selected_entries(&self, user_input: &str) -> (w: Vec<Correspondence>)
        ensures
            w@.len() == window_len_spec(*self, user_input@),
            forall|i: int|
                0 <= i < w@.len() ==> w@[i].user@ == selected_suffix(*self, user_input@)[i].user@
                    && w@[i].assistant@ == selected_suffix(*self, user_input@)[i].assistant@,
    {
        let k = self.context_window_len(user_input);
        let n = self.history.len();
        let mut w: Vec<Correspondence> = Vec::new();
        let mut j: usize = 0;
        while j < k
            invariant
                k <= n,
                n == self.history@.len(),
                k as nat == window_len_spec(*self, user_input@),
                j <= k,
                w@.len() == j,
                forall|i: int|
                    0 <= i < j ==> w@[i].user@ == self.history@[n - k + i].user@ && w@[i].assistant@
                        == self.history@[n - k + i].assistant@,
            decreases k - j,
        {
            let entry = self.history[n - k + j].duplicate();
            w.push(entry);
            j = j + 1;
        }
        w
    }
}

/// A walk that starts over budget accepts nothing.
proof fn lemma_sel_count_over(h: Seq<Correspondence>, used: nat, max: nat)
    requires
        used > max,
    ensures
        sel_count(h, used, max) == 0,
{
}

} // verus!
