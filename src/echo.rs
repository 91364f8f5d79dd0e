//! The inline-echo round trip: the user's session asks the bot by inline query, the bot's
//! session answers with the content, and the user's session posts that answer into the chat.
//! Each side decides its next step from what it last observed.

use vstd::prelude::*;

use crate::relay::{ChatRef, Content, ContentView};
use crate::text::{int_text, int_to_text};

verus! {

/// One round trip: the correlation text, the target chat and the content to post.
pub struct InlineEcho {
    nonce: String,
    chat: ChatRef,
    content: Content,
}

/// A round trip, as plain values.
pub struct EchoView {
    pub nonce: Seq<char>,
    pub chat: ChatRef,
    pub content: ContentView,
}

impl View for InlineEcho {
    type V = EchoView;

    closed spec fn view(&self) -> EchoView {
        EchoView { nonce: self.nonce@, chat: self.chat, content: self.content@ }
    }
}

/// The round trip correlated by the decimal text of `number`.
pub open spec fn echo_of(number: i64, chat: ChatRef, content: ContentView) -> EchoView {
    EchoView { nonce: int_text(number as int), chat, content }
}

/// The requester's side of a round trip: the correlation text and the target chat.
#[derive(Clone, Debug)]
pub struct EchoRequester {
    nonce: String,
    chat: ChatRef,
}

impl View for EchoRequester {
    type V = (Seq<char>, ChatRef);

    closed spec fn view(&self) -> (Seq<char>, ChatRef) {
        (self.nonce@, self.chat)
    }
}

impl EchoRequester {
    /// The text of the inline query to issue.
    pub fn nonce(&self) -> (r: &str)
        ensures
            r@ == self@.0,
    {
        self.nonce.as_str()
    }

    /// The chat the selected result is to be posted into.
    pub fn chat(&self) -> (r: ChatRef)
        ensures
            r == self@.1,
    {
        self.chat
    }

    /// The next step after a poll of the inline results.
    pub fn step(&self, poll: &Poll) -> (r: RequesterStep)
        ensures
            r == requester_spec(self@.0, poll_view(poll), poll is Failed),
    {
        match poll {
            Poll::Empty => RequesterStep::Retry,
            Poll::TimedOut => RequesterStep::Retry,
            Poll::Result(Some(title)) => {
                if *title == self.nonce {
                    RequesterStep::Select
                } else {
                    RequesterStep::Skip
                }
            },
            Poll::Result(None) => RequesterStep::Skip,
            Poll::Failed => RequesterStep::Abort,
        }
    }
}

/// What the requester observed on its last poll of the inline results.
pub enum Poll {
    /// No result yet.
    Empty,
    /// The bot did not answer in time.
    TimedOut,
    /// A result, with its title when it has one.
    Result(Option<String>),
    /// Any other failure.
    Failed,
}

/// What the requester does next.
#[derive(Clone, Copy, Debug, PartialEq, Eq, Structural)]
pub enum RequesterStep {
    /// Sleep a second, then poll again.
    Retry,
    /// Pass over this result and take the next one.
    Skip,
    /// Post this result into the chat, and stop.
    Select,
    /// Give up on the round trip.
    Abort,
}

/// What the responder does with an inline query it observed.
#[derive(Clone, Copy, Debug, PartialEq, Eq, Structural)]
pub enum ResponderStep {
    /// Keep waiting for the query of this round trip.
    Wait,
    /// Answer this query with one result titled with the nonce and carrying the content, and stop.
    Answer,
}

/// The requester's step on a poll: retry on nothing or a timeout, select exactly the result
/// titled with the nonce, pass over any other result, abort on any other failure.
pub open spec fn requester_spec(nonce: Seq<char>, poll: Option<Option<Seq<char>>>, failed: bool) -> RequesterStep {
    if failed {
        RequesterStep::Abort
    } else {
        match poll {
            None => RequesterStep::Retry,
            Some(title) => if title == Some(nonce) {
                RequesterStep::Select
            } else {
                RequesterStep::Skip
            },
        }
    }
}

/// A poll, as plain values: `None` for nothing yet or a timeout, `Some(title)` for a result.
pub open spec fn poll_view(p: &Poll) -> Option<Option<Seq<char>>> {
    match p {
        Poll::Result(Some(t)) => Some(Some(t@)),
        Poll::Result(None) => Some(None),
        _ => None,
    }
}

/// The responder's step: answer exactly the query whose text is the nonce.
pub open spec fn responder_spec(nonce: Seq<char>, query: Option<Seq<char>>) -> ResponderStep {
    if query == Some(nonce) {
        ResponderStep::Answer
    } else {
        ResponderStep::Wait
    }
}

impl InlineEcho {
    /// The round trip correlated by the decimal text of `number`, as `number.to_string()` writes it.
    pub fn new(number: i64, chat: ChatRef, content: Content) -> (r: InlineEcho)
        ensures
            r@ == echo_of(number, chat, content@),
    {
        InlineEcho { nonce: int_to_text(number), chat, content }
    }

    /// The correlation text: the text of the inline query and the title of its answer.
    pub fn nonce(&self) -> (r: &str)
        ensures
            r@ == self@.nonce,
    {
        self.nonce.as_str()
    }

    /// The chat the content is to be posted into.
    pub fn chat(&self) -> (r: ChatRef)
        ensures
            r == self@.chat,
    {
        self.chat
    }

    /// The requester's side of the round trip, to run on the user's session.
    pub fn requester(&self) -> (r: EchoRequester)
        ensures
            r@ == (self@.nonce, self@.chat),
    {
        EchoRequester { nonce: self.nonce.clone(), chat: self.chat }
    }

    /// The responder's step on an inline query with the given text, or on none within its wait.
    pub fn responder_step(&self, query: Option<&str>) -> (r: ResponderStep)
        ensures
            r == responder_spec(self@.nonce, match query {
                Some(q) => Some(q@),
                None => None,
            }),
    {
        match query {
            Some(q) => {
                let text = String::from_str(q);
                if text == self.nonce {
                    ResponderStep::Answer
                } else {
                    ResponderStep::Wait
                }
            },
            None => ResponderStep::Wait,
        }
    }

    /// The single result that answers the query: titled with the nonce, carrying the content.
    pub fn into_answer(self) -> (r: (String, Content))
        ensures
            r.0@ == self@.nonce,
            r.1@ == self@.content,
    {
        (self.nonce, self.content)
    }
}

/// The round trip meets: the responder answers the query that carries the nonce, and the
/// requester selects exactly the result the responder gave, which carries the content.
pub proof fn lemma_echo_meets(e: EchoView)
    ensures
        responder_spec(e.nonce, Some(e.nonce)) == ResponderStep::Answer,
        requester_spec(e.nonce, Some(Some(e.nonce)), false) == RequesterStep::Select,
        forall|t: Seq<char>| t != e.nonce ==> requester_spec(e.nonce, Some(Some(t)), false) == RequesterStep::Skip,
{
}

} // verus!
