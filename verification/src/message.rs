//! The two-stage message conversion protocol: a candidate message is first
//! wrapped, then classified into the owned message text. The wrapper stage
//! keeps the generic entry point stable while each accepted source type gets
//! its own conversion.

use vstd::prelude::*;

verus! {

/// The first stage of the message conversion: a thin wrapper that fixes
/// which conversion applies to the candidate.
pub struct MessageWrapper<T>(pub T);

/// The second stage: the owned message text.
pub struct Message(String);

impl View for Message {
    type V = Seq<char>;

    closed spec fn view(&self) -> Seq<char> {
        self.0@
    }
}

impl Message {
    /// Surrenders the message text.
    pub fn into_string(self) -> (r: String)
        ensures
            r@ == self@,
    {
        self.0
    }
}

/// The view of an optional text.
pub open spec fn opt_text(o: Option<String>) -> Option<Seq<char>> {
    match o {
        Option::Some(s) => Some(s@),
        Option::None => None,
    }
}

/// The message composed from an externally-typed failure's texts: the
/// display text under `err`, the description when it is non-empty, then the
/// cause — or, in its place, the source — under `cause`, and the source
/// under its own label when both are present, each in single quotes.
pub open spec fn composed_message(
    display: Seq<char>,
    description: Seq<char>,
    cause: Option<Seq<char>>,
    source: Option<Seq<char>>,
) -> Seq<char> {
    "err:'"@ + display + seq!['\''] + (if description.len() > 0 {
        " description:'"@ + description + seq!['\'']
    } else {
        Seq::<char>::empty()
    }) + (match (cause, source) {
        (Option::Some(c), Option::Some(s)) => " cause:'"@ + c + seq!['\''] + " source:'"@ + s
            + seq!['\''],
        (Option::Some(c), Option::None) => " cause:'"@ + c + seq!['\''],
        (Option::None, Option::Some(s)) => " cause:'"@ + s + seq!['\''],
        (Option::None, Option::None) => Seq::<char>::empty(),
    })
}

/// Composes a record message from the texts of an externally-typed failure:
/// its display text, its description, and the display texts of its causal
/// predecessors, as far as each is present.
pub fn compose_error_message(
    display: String,
    description: String,
    cause: Option<String>,
    source: Option<String>,
) -> (r: Message)
    ensures
        r@ == composed_message(display@, description@, opt_text(cause), opt_text(source)),
{
    let mut r = String::from_str("err:'");
    r.append(display.as_str());
    r.append("'");
    if description.as_str().unicode_len() > 0 {
        r.append(" description:'");
        r.append(description.as_str());
        r.append("'");
    }
    match &cause {
        Option::Some(c) => {
            r.append(" cause:'");
            r.append(c.as_str());
            r.append("'");
            match &source {
                Option::Some(s) => {
                    r.append(" source:'");
                    r.append(s.as_str());
                    r.append("'");
                },
                Option::None => {},
            }
        },
        Option::None => {
            match &source {
                Option::Some(s) => {
                    r.append(" cause:'");
                    r.append(s.as_str());
                    r.append("'");
                },
                Option::None => {},
            }
        },
    }
    proof {
        reveal_strlit("err:'");
        reveal_strlit("'");
        reveal_strlit(" description:'");
        reveal_strlit(" cause:'");
        reveal_strlit(" source:'");
        assert("'"@ =~= seq!['\'']);
        assert(r@ =~= composed_message(display@, description@, opt_text(cause), opt_text(source)));
    }
    Message(r)
}

impl<'a> From<&'a str> for MessageWrapper<String> {
    fn from(v: &'a str) -> (r: MessageWrapper<String>)
        ensures
            r.0@ == v@,
    {
        MessageWrapper(String::from_str(v))
    }
}

impl<'a> vstd::std_specs::convert::FromSpecImpl<&'a str> for MessageWrapper<String> {
    open spec fn obeys_from_spec() -> bool {
        false
    }

    open spec fn from_spec(v: &'a str) -> MessageWrapper<String> {
        arbitrary()
    }
}

impl From<String> for MessageWrapper<String> {
    fn from(v: String) -> (r: MessageWrapper<String>) {
        MessageWrapper(v)
    }
}

impl vstd::std_specs::convert::FromSpecImpl<String> for MessageWrapper<String> {
    open spec fn obeys_from_spec() -> bool {
        true
    }

    open spec fn from_spec(v: String) -> MessageWrapper<String> {
        MessageWrapper(v)
    }
}

impl<'a> From<&'a String> for MessageWrapper<String> {
    fn from(v: &'a String) -> (r: MessageWrapper<String>)
        ensures
            r.0@ == v@,
    {
        MessageWrapper(String::from_str(v.as_str()))
    }
}

impl<'a> vstd::std_specs::convert::FromSpecImpl<&'a String> for MessageWrapper<String> {
    open spec fn obeys_from_spec() -> bool {
        false
    }

    open spec fn from_spec(v: &'a String) -> MessageWrapper<String> {
        arbitrary()
    }
}

impl From<MessageWrapper<String>> for Message {
    fn from(v: MessageWrapper<String>) -> (r: Message)
        ensures
            r@ == v.0@,
    {
        Message(v.0)
    }
}

impl vstd::std_specs::convert::FromSpecImpl<MessageWrapper<String>> for Message {
    open spec fn obeys_from_spec() -> bool {
        true
    }

    closed spec fn from_spec(v: MessageWrapper<String>) -> Message {
        Message(v.0)
    }
}

impl From<String> for Message {
    fn from(v: String) -> (r: Message)
        ensures
            r@ == v@,
    {
        Message(v)
    }
}

impl vstd::std_specs::convert::FromSpecImpl<String> for Message {
    open spec fn obeys_from_spec() -> bool {
        true
    }

    closed spec fn from_spec(v: String) -> Message {
        Message(v)
    }
}

} // verus!
