//! One conversational turn.
//!
//! The inference engine is an outside collaborator: it takes the assembled
//! prompt and hands back text fragments one at a time, in generation order.
//! This module holds the decisions of the turn: which fragments enter the
//! reply, what signal goes back to the engine, and how a finished or failed
//! stream changes the conversation state. The caller drives the engine and
//! feeds its events in.

use vstd::prelude::*;

use crate::conversation::Conversation;
use crate::correspondence::Correspondence;
use crate::prompt::prompt_spec;
use crate::window::selected_suffix;

verus! {

/// What one streamed fragment is: echoed prompt text, or newly generated
/// text.
#[derive(Clone, Copy, PartialEq, Eq, Structural, Debug)]
pub enum FragmentKind {
    PromptEcho,
    Generated,
}

/// One unit of streamed engine output.
pub struct Fragment {
    pub kind: FragmentKind,
    pub text: String,
}

/// The consumer's answer to the engine after each fragment. This core never
/// stops a stream early; `Stop` is an extension point for callers.
#[derive(Clone, Copy, PartialEq, Eq, Structural, Debug)]
pub enum StreamSignal {
    Continue,
    Stop,
}

/// Why a turn produced no reply.
#[derive(Clone, Copy, PartialEq, Eq, Structural, Debug)]
pub enum EngineError {
    /// The inference session could not be acquired at all.
    StartFailure,
    /// The streaming call failed mid-turn.
    GenerationFailure,
}

/// The concatenation of the `Generated` fragments' text, in delivery order;
/// echoed prompt text contributes nothing.
pub open spec fn generated_concat(fs: Seq<Fragment>) -> Seq<char>
    decreases fs.len(),
{
    if fs.len() == 0 {
        Seq::<char>::empty()
    } else {
        generated_concat(fs.drop_last()) + (if fs.last().kind == FragmentKind::Generated {
            fs.last().text@
        } else {
            Seq::<char>::empty()
        })
    }
}

/// Builds the assistant's reply out of the streamed fragments, one event at
/// a time.
pub struct StreamAccumulator {
    pub text: String,
}

impl StreamAccumulator {
    pub fn new() -> (a: StreamAccumulator)
        ensures
            a.text@ == Seq::<char>::empty(),
    {
        StreamAccumulator { text: String::new() }
    }

    /// Consume one streamed fragment: generated text joins the reply, echoed
    /// prompt text does not, and the engine is always told to continue.
    pub fn push_fragment(&mut self, kind: FragmentKind, text: &str) -> (sig: StreamSignal)
        ensures
            kind == FragmentKind::Generated ==> final(self).text@ == old(self).text@ + text@,
            kind == FragmentKind::PromptEcho ==> final(self).text@ == old(self).text@,
            sig == StreamSignal::Continue,
    {
        match kind {
            FragmentKind::Generated => {
                self.text.append(text);
            },
            FragmentKind::PromptEcho => {},
        }
        StreamSignal::Continue
    }
}

/// Fold a whole fragment stream into the reply text: the result is exactly
/// the generated fragments' text, concatenated in delivery order.
pub fn accumulate_fragments(fragments: &Vec<Fragment>) -> (r: String)
    ensures
        r@ == generated_concat(fragments@),
{
    let ghost fs = fragments@;
    let mut acc = StreamAccumulator::new();
    let mut i: usize = 0;
    while i < fragments.len()
        invariant
            fs == fragments@,
            i <= fs.len(),
            acc.text@ == generated_concat(fs.take(i as int)),
        decreases fs.len() - i,
    {
        let _ = acc.push_fragment(fragments[i].kind, fragments[i].text.as_str());
        proof {
            assert(fs.take(i + 1).drop_last() =~= fs.take(i as int));
            assert(fs.take(i + 1).last() == fs[i as int]);
            if fs[i as int].kind == FragmentKind::PromptEcho {
                assert(acc.text@ =~= generated_concat(fs.take(i + 1)));
            }
        }
        i = i + 1;
    }
    proof {
        assert(fs.take(fs.len() as int) =~= fs);
    }
    acc.text
}

impl Conversation {
    /// Build the prompt for the next turn: the context window over the
    /// current history, laid out in the fixed template with the current user
    /// input. Pure with respect to the conversation state.
    pub fn begin_turn(&self, user_input: &str) -> (r: String)
        ensures
            r@ == prompt_spec(
                selected_suffix(*self, user_input@),
                self.system_prompt@,
                self.context@,
                user_input@,
            ),
    {
        let k = self.context_window_len(user_input);
        self.assemble_prompt(k, user_input)
    }

    /// Close the turn on the engine's outcome. A completed stream appends
    /// exactly one new correspondence — the user input paired with the
    /// accumulated reply — and changes nothing else. A failed stream changes
    /// nothing at all: the partial reply is discarded and the error is handed
    /// back.
    pub fn finish_turn(&mut self, user_input: &str, outcome: Result<String, EngineError>) -> (r:
        Result<(), EngineError>)
        ensures
            outcome matches Ok(reply) ==> {
                &&& final(self).history@.len() == old(self).history@.len() + 1
                &&& final(self).history@.drop_last() == old(self).history@
                &&& final(self).history@.last().user@ == user_input@
                &&& final(self).history@.last().assistant@ == reply@
                &&& final(self).system_prompt == old(self).system_prompt
                &&& final(self).context == old(self).context
                &&& final(self).max_context_length_words == old(self).max_context_length_words
                &&& r == Ok::<(), EngineError>(())
            },
            outcome matches Err(e) ==> {
                &&& *final(self) == *old(self)
                &&& r == Err::<(), EngineError>(e)
            },
    {
        match outcome {
            Ok(reply) => {
                let c = Correspondence::new(user_input.to_owned(), reply);
                self.append_correspondence(c);
                proof {
                    assert(self.history@.drop_last() =~= old(self).history@);
                }
                Ok(())
            },
            Err(e) => Err(e),
        }
    }
}

} // verus!
