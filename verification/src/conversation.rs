//! The conversation state: prompts, background context, and the growing
//! history of completed exchanges.

use vstd::prelude::*;

use crate::correspondence::Correspondence;
use crate::correspondence::render_spec;

verus! {

/// The state one conversation accumulates across turns.
///
/// `system_prompt` and `context` are fixed for the life of the value;
/// `history` is append-only: turn processing adds one record per completed
/// turn and never reorders or deletes. Trimming for the prompt budget is a
/// view over this history, not a mutation of it.
pub struct Conversation {
    pub system_prompt: String,
    pub context: String,
    /// Completed exchanges in chronological order, oldest first.
    pub history: Vec<Correspondence>,
    /// Word-count budget for the rendered prompt, a positive number.
    pub max_context_length_words: usize,
}

/// The rendered history part of the conversation display: each record's
/// block followed by a newline, oldest first.
pub open spec fn display_history(h: Seq<Correspondence>) -> Seq<char>
    decreases h.len(),
{
    if h.len() == 0 {
        Seq::<char>::empty()
    } else {
        display_history(h.drop_last()) + render_spec(h.last()) + "\n"@
    }
}

/// The full conversation display: system prompt, context, then the whole
/// history (never trimmed here).
pub open spec fn display_spec(c: Conversation) -> Seq<char> {
    "System Prompt:\n"@ + c.system_prompt@ + "\nContext:\n"@ + c.context@
        + "\nCorrespondence History:\n"@ + display_history(c.history@)
}

impl Conversation {
    /// Start a conversation with no completed exchanges.
    pub fn new(system_prompt: String, context: String, max_context_length_words: usize) -> (c:
        Conversation)
        requires
            max_context_length_words >= 1,
        ensures
            c.system_prompt@ == system_prompt@,
            c.context@ == context@,
            c.history@ == Seq::<Correspondence>::empty(),
            c.max_context_length_words == max_context_length_words,
    {
        Conversation { system_prompt, context, history: Vec::new(), max_context_length_words }
    }

    /// Append one completed exchange to the history; nothing else changes.
    pub fn append_correspondence(&mut self, c: Correspondence)
        ensures
            final(self).history@ == old(self).history@.push(c),
            final(self).system_prompt == old(self).system_prompt,
            final(self).context == old(self).context,
            final(self).max_context_length_words == old(self).max_context_length_words,
    {
        self.history.push(c);
    }

    /// Render the whole conversation state for display: system prompt,
    /// context, and every exchange of the history in order.
    pub fn display_string(&self) -> (r: String)
        ensures
            r@ == display_spec(*self),
    {
        let mut r = String::from_str("System Prompt:\n");
        r.append(self.system_prompt.as_str());
        r.append("\nContext:\n");
        r.append(self.context.as_str());
        r.append("\nCorrespondence History:\n");
        let ghost fixed: Seq<char> = r@;
        let mut i: usize = 0;
        while i < self.history.len()
            invariant
                i <= self.history@.len(),
                fixed == "System Prompt:\n"@ + self.system_prompt@ + "\nContext:\n"@
                    + self.context@ + "\nCorrespondence History:\n"@,
                r@ == fixed + display_history(self.history@.take(i as int)),
            decreases self.history@.len() - i,
        {
            let block = self.history[i].to_string();
            r.append(block.as_str());
            r.append("\n");
            proof {
                let h = self.history@;
                assert(h.take(i + 1).drop_last() =~= h.take(i as int));
                assert(h.take(i + 1).last() == h[i as int]);
                assert(fixed + display_history(h.take(i + 1)) =~= fixed + display_history(
                    h.take(i as int),
                ) + render_spec(h[i as int]) + "\n"@);
            }
            i = i + 1;
        }
        proof {
            assert(self.history@.take(self.history@.len() as int) =~= self.history@);
            assert(r@ =~= display_spec(*self));
        }
        r
    }
}

} // verus!
