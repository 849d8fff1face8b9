//! One completed user/assistant exchange.

use vstd::prelude::*;

verus! {

/// An immutable record of one completed exchange: the user's input paired
/// with the assistant's full reply. Created only once a turn has completed;
/// never modified afterwards.
pub struct Correspondence {
    pub user: String,
    pub assistant: String,
}

/// The rendered form of an exchange: a two-line-prefixed block
/// `user:\n<user text>\nassistant:\n<assistant text>`.
pub open spec fn render_spec(c: Correspondence) -> Seq<char> {
    "user:\n"@ + c.user@ + "\nassistant:\n"@ + c.assistant@
}

impl Correspondence {
    pub fn new(user: String, assistant: String) -> (c: Correspondence)
        ensures
            c.user@ == user@,
            c.assistant@ == assistant@,
    {
        Correspondence { user, assistant }
    }

    /// Render the exchange as its two-line-prefixed block.
    pub fn to_string(&self) -> (r: String)
        ensures
            r@ == render_spec(*self),
    {
        let mut r = String::from_str("user:\n");
        r.append(self.user.as_str());
        r.append("\nassistant:\n");
        r.append(self.assistant.as_str());
        r
    }

    /// Copy the record field by field.
    pub fn duplicate(&self) -> (c: Correspondence)
        ensures
            c.user@ == self.user@,
            c.assistant@ == self.assistant@,
    {
        Correspondence { user: self.user.clone(), assistant: self.assistant.clone() }
    }
}

} // verus!
