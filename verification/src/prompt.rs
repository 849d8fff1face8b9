//! Deterministic textual composition of the final prompt.
//!
//! No decision logic lives here: the context window has already been chosen,
//! and this module only lays the pieces out in the fixed template.

use vstd::prelude::*;

use crate::conversation::Conversation;
use crate::correspondence::Correspondence;
use crate::correspondence::render_spec;

verus! {

/// The rendered history section: the selected records' blocks, oldest first,
/// separated by blank lines. An empty selection renders as empty text.
pub open spec fn history_block(h: Seq<Correspondence>) -> Seq<char>
    decreases h.len(),
{
    if h.len() == 0 {
        Seq::<char>::empty()
    } else if h.len() == 1 {
        render_spec(h[0])
    } else {
        history_block(h.drop_last()) + "\n\n"@ + render_spec(h.last())
    }
}

/// The fixed prompt template: history, system prompt, context, and the
/// current user input, each under its header. The headers are always
/// present, even over an empty history block.
pub open spec fn prompt_spec(
    selected: Seq<Correspondence>,
    system_prompt: Seq<char>,
    context: Seq<char>,
    user_input: Seq<char>,
) -> Seq<char> {
    "Correspondence History:\n"@ + history_block(selected) + "\n\nSystem Prompt:\n"@
        + system_prompt + "\n\nContext:\n"@ + context + "\n\nUser Input:\n"@ + user_input
}

/// All or nothing per record: the rendered history section holds each
/// record's block whole — `render_spec(h[i])` stands in it unbroken, as one
/// contiguous stretch. No record is ever included in part.
pub proof fn lemma_all_or_nothing(h: Seq<Correspondence>, i: int)
    requires
        0 <= i < h.len(),
    ensures
        exists|start: int|
            0 <= start && start + render_spec(h[i]).len() <= history_block(h).len()
                && #[trigger] history_block(h).subrange(start, start + render_spec(h[i]).len())
                == render_spec(h[i]),
    decreases h.len(),
{
    reveal_strlit("\n\n");
    if h.len() == 1 {
        assert(history_block(h) == render_spec(h[0]));
        let start: int = 0;
        assert(history_block(h).subrange(start, start + render_spec(h[i]).len()) =~= render_spec(
            h[i],
        ));
    } else if i == h.len() - 1 {
        assert(history_block(h) == history_block(h.drop_last()) + "\n\n"@ + render_spec(h.last()));
        let start: int = history_block(h.drop_last()).len() as int + 2;
        assert(h.last() == h[i]);
        assert(history_block(h).subrange(start, start + render_spec(h[i]).len()) =~= render_spec(
            h[i],
        ));
    } else {
        lemma_all_or_nothing(h.drop_last(), i);
        assert(h.drop_last()[i] == h[i]);
        assert(history_block(h) == history_block(h.drop_last()) + "\n\n"@ + render_spec(h.last()));
        let start = choose|start: int|
            0 <= start && start + render_spec(h[i]).len() <= history_block(h.drop_last()).len()
                && #[trigger] history_block(h.drop_last()).subrange(
                start,
                start + render_spec(h[i]).len(),
            ) == render_spec(h[i]);
        assert(history_block(h).subrange(start, start + render_spec(h[i]).len()) =~= history_block(
            h.drop_last(),
        ).subrange(start, start + render_spec(h[i]).len()));
        assert(history_block(h).subrange(start, start + render_spec(h[i]).len()) == render_spec(
            h[i],
        ));
    }
}

impl Conversation {
    /// Compose the prompt from the newest `k` history records and the current
    /// user input. Pure layout: the fixed parts are never truncated, and each
    /// selected record appears whole, in chronological order.
    pub fn assemble_prompt(&self, k: usize, user_input: &str) -> (r: String)
        requires
            k <= self.history@.len(),
        ensures
            r@ == prompt_spec(
                self.history@.subrange(self.history@.len() - k, self.history@.len() as int),
                self.system_prompt@,
                self.context@,
                user_input@,
            ),
    {
        let n = self.history.len();
        let ghost sel: Seq<Correspondence> = self.history@.subrange(
            n as int - k as int,
            n as int,
        );
        let mut block = String::new();
        let mut j: usize = 0;
        while j < k
            invariant
                k <= n,
                n == self.history@.len(),
                j <= k,
                sel == self.history@.subrange(n as int - k as int, n as int),
                block@ == history_block(sel.take(j as int)),
            decreases k - j,
        {
            let piece = self.history[n - k + j].to_string();
            if j > 0 {
                block.append("\n\n");
            }
            block.append(piece.as_str());
            proof {
                assert(sel.take(j + 1).drop_last() =~= sel.take(j as int));
                assert(sel.take(j + 1).last() == self.history@[n - k + j]);
                if j == 0 {
                    assert(sel.take(1).len() == 1);
                    assert(block@ =~= history_block(sel.take(1)));
                } else {
                    assert(block@ =~= history_block(sel.take(j as int)) + "\n\n"@ + render_spec(
                        self.history@[n - k + j],
                    ));
                }
            }
            j = j + 1;
        }
        proof {
            assert(sel.take(k as int) =~= sel);
        }
        let mut r = String::from_str("Correspondence History:\n");
        r.append(block.as_str());
        r.append("\n\nSystem Prompt:\n");
        r.append(self.system_prompt.as_str());
        r.append("\n\nContext:\n");
        r.append(self.context.as_str());
        r.append("\n\nUser Input:\n");
        r.append(user_input);
        proof {
            assert(r@ =~= prompt_spec(sel, self.system_prompt@, self.context@, user_input@));
        }
        r
    }
}

} // verus!
