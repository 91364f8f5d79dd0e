//! Relay requests: what one identity asks the other to do, and which session performs it.

use vstd::prelude::*;

use crate::echo::{InlineEcho, EchoView, echo_of};

verus! {

/// The kind of a chat, as the platform tells them apart.
#[derive(Clone, Copy, Debug, PartialEq, Eq, Structural)]
pub enum ChatKind {
    User,
    Bot,
    Group,
    Megagroup,
    Broadcast,
    Gigagroup,
}

/// A chat as the platform addresses it: its kind, its id and, when needed, the access hash
/// that lets a session act in it.
#[derive(Clone, Copy, Debug, PartialEq, Eq, Structural)]
pub struct ChatRef {
    pub kind: ChatKind,
    pub id: i64,
    pub access_hash: Option<i64>,
}

/// A button under a message: its label and the data sent back when it is pressed.
pub struct InlineButton {
    text: String,
    data: String,
}

/// A button, as plain values.
pub struct ButtonView {
    pub text: Seq<char>,
    pub data: Seq<char>,
}

impl View for InlineButton {
    type V = ButtonView;

    closed spec fn view(&self) -> ButtonView {
        ButtonView { text: self.text@, data: self.data@ }
    }
}

impl InlineButton {
    /// A button with the label and the callback data.
    pub fn new(text: String, data: String) -> (r: InlineButton)
        ensures
            r@ == (ButtonView { text: text@, data: data@ }),
    {
        InlineButton { text, data }
    }

    /// The label.
    pub fn text(&self) -> (r: &str)
        ensures
            r@ == self@.text,
    {
        self.text.as_str()
    }

    /// The callback data.
    pub fn data(&self) -> (r: &str)
        ensures
            r@ == self@.data,
    {
        self.data.as_str()
    }
}

/// The rows of a keyboard, as plain values.
pub open spec fn keyboard_view(k: Seq<Vec<InlineButton>>) -> Seq<Seq<ButtonView>> {
    k.map_values(|row: Vec<InlineButton>| row@.map_values(|b: InlineButton| b@))
}

/// The body of a message: HTML text and an inline keyboard, possibly empty.
pub struct Content {
    html: String,
    keyboard: Vec<Vec<InlineButton>>,
}

/// A message body, as plain values.
pub struct ContentView {
    pub html: Seq<char>,
    pub keyboard: Seq<Seq<ButtonView>>,
}

impl View for Content {
    type V = ContentView;

    closed spec fn view(&self) -> ContentView {
        ContentView { html: self.html@, keyboard: keyboard_view(self.keyboard@) }
    }
}

impl Content {
    /// A body of HTML text without a keyboard.
    pub fn html(html: String) -> (r: Content)
        ensures
            r@ == (ContentView { html: html@, keyboard: Seq::empty() }),
    {
        let r = Content { html, keyboard: Vec::new() };
        assert(r@.keyboard =~= Seq::<Seq<ButtonView>>::empty());
        r
    }

    /// The same body with the keyboard put under it.
    pub fn with_keyboard(self, keyboard: Vec<Vec<InlineButton>>) -> (r: Content)
        ensures
            r@ == (ContentView { keyboard: keyboard_view(keyboard@), ..self@ }),
    {
        Content { html: self.html, keyboard }
    }

    /// The HTML text.
    pub fn text(&self) -> (r: &str)
        ensures
            r@ == self@.html,
    {
        self.html.as_str()
    }

    /// The keyboard rows.
    pub fn keyboard(&self) -> (r: &Vec<Vec<InlineButton>>)
        ensures
            keyboard_view(r@) == self@.keyboard,
    {
        &self.keyboard
    }
}

/// Which identity's session performs a relayed action.
#[derive(Clone, Copy, Debug, PartialEq, Eq, Structural)]
pub enum Recipient {
    /// The bot's session.
    Bot,
    /// The user's session.
    User,
}

/// The action a relay request asks for.
pub enum Action {
    /// Send a message into a chat.
    SendMessage(ChatRef, Content),
    /// Have the bot post a message into a chat through an inline-query round trip.
    SendViaBotMessage(ChatRef, Content),
    /// Replace the body of a message.
    EditMessage(ChatRef, i32, Content),
    /// Nothing was set; performing it only reports the mistake.
    Undefined,
}

/// An action, as plain values.
pub enum ActionView {
    SendMessage(ChatRef, ContentView),
    SendViaBotMessage(ChatRef, ContentView),
    EditMessage(ChatRef, i32, ContentView),
    Undefined,
}

impl View for Action {
    type V = ActionView;

    open spec fn view(&self) -> ActionView {
        match self {
            Action::SendMessage(c, m) => ActionView::SendMessage(*c, m@),
            Action::SendViaBotMessage(c, m) => ActionView::SendViaBotMessage(*c, m@),
            Action::EditMessage(c, id, m) => ActionView::EditMessage(*c, *id, m@),
            Action::Undefined => ActionView::Undefined,
        }
    }
}

/// A relay request: an action and the session that is to perform it.
pub struct Message {
    action: Action,
    recipient: Recipient,
}

/// A relay request, as plain values.
pub struct MessageView {
    pub action: ActionView,
    pub recipient: Recipient,
}

impl View for Message {
    type V = MessageView;

    closed spec fn view(&self) -> MessageView {
        MessageView { action: self.action@, recipient: self.recipient }
    }
}

/// A call on one session's handle, decided from a relay request.
pub enum SessionCall {
    /// `by` sends the content into the chat.
    Send { by: Recipient, chat: ChatRef, content: Content },
    /// `by` replaces the body of the message in the chat.
    Edit { by: Recipient, chat: ChatRef, message_id: i32, content: Content },
    /// The user's session asks the bot by inline query and the bot's session answers it.
    Echo(InlineEcho),
    /// Nothing to perform: the request carried no action.
    Skip,
}

/// A session call, as plain values.
pub enum CallView {
    Send { by: Recipient, chat: ChatRef, content: ContentView },
    Edit { by: Recipient, chat: ChatRef, message_id: i32, content: ContentView },
    Echo(EchoView),
    Skip,
}

impl View for SessionCall {
    type V = CallView;

    open spec fn view(&self) -> CallView {
        match self {
            SessionCall::Send { by, chat, content } => CallView::Send { by: *by, chat: *chat, content: content@ },
            SessionCall::Edit { by, chat, message_id, content } => CallView::Edit {
                by: *by,
                chat: *chat,
                message_id: *message_id,
                content: content@,
            },
            SessionCall::Echo(e) => CallView::Echo(e@),
            SessionCall::Skip => CallView::Skip,
        }
    }
}

/// The call that performs a request, given the number drawn for an inline-query round trip.
pub open spec fn call_of(m: MessageView, number: i64) -> CallView {
    match m.action {
        ActionView::SendMessage(chat, content) => CallView::Send { by: m.recipient, chat, content },
        ActionView::EditMessage(chat, message_id, content) => CallView::Edit {
            by: m.recipient,
            chat,
            message_id,
            content,
        },
        ActionView::SendViaBotMessage(chat, content) => CallView::Echo(echo_of(number, chat, content)),
        ActionView::Undefined => CallView::Skip,
    }
}

/// Relies on `rand::random::<i64>`: any value may come back.
#[verifier::external_body]
fn draw_number() -> (r: i64) {
    rand::random::<i64>()
}

impl Message {
    /// A request with no action yet, to be performed by the bot's session.
    pub fn to_bot() -> (r: Message)
        ensures
            r@ == (MessageView { action: ActionView::Undefined, recipient: Recipient::Bot }),
    {
        Message { action: Action::Undefined, recipient: Recipient::Bot }
    }

    /// A request with no action yet, to be performed by the user's session.
    pub fn to_user() -> (r: Message)
        ensures
            r@ == (MessageView { action: ActionView::Undefined, recipient: Recipient::User }),
    {
        Message { action: Action::Undefined, recipient: Recipient::User }
    }

    /// The action.
    pub fn action(&self) -> (r: &Action)
        ensures
            r@ == self@.action,
    {
        &self.action
    }

    /// The session that is to perform the action.
    pub fn recipient(&self) -> (r: &Recipient)
        ensures
            *r == self@.recipient,
    {
        &self.recipient
    }

    /// The action and the recipient.
    pub fn unwrap(self) -> (r: (Action, Recipient))
        ensures
            r.0@ == self@.action,
            r.1 == self@.recipient,
    {
        (self.action, self.recipient)
    }

    /// The same request, now sending the content into the chat.
    pub fn send_message(self, chat: ChatRef, input: Content) -> (r: Message)
        ensures
            r@ == (MessageView { action: ActionView::SendMessage(chat, input@), recipient: self@.recipient }),
    {
        Message { action: Action::SendMessage(chat, input), recipient: self.recipient }
    }

    /// The same request, now having the bot post the content into the chat. Only a request
    /// for the bot's session can carry this action.
    pub fn send_via_bot_message(self, chat: ChatRef, input: Content) -> (r: Message)
        requires
            self@.recipient == Recipient::Bot,
        ensures
            r@ == (MessageView { action: ActionView::SendViaBotMessage(chat, input@), recipient: Recipient::Bot }),
    {
        Message { action: Action::SendViaBotMessage(chat, input), recipient: self.recipient }
    }

    /// The same request, now replacing the body of the message with the id.
    pub fn edit_message(self, chat: ChatRef, message_id: i32, input: Content) -> (r: Message)
        ensures
            r@ == (MessageView {
                action: ActionView::EditMessage(chat, message_id, input@),
                recipient: self@.recipient,
            }),
    {
        Message { action: Action::EditMessage(chat, message_id, input), recipient: self.recipient }
    }

    /// The call that performs the request, with `number` as the correlation value of an
    /// inline-query round trip.
    pub fn dispatch_with(self, number: i64) -> (r: SessionCall)
        ensures
            r@ == call_of(self@, number),
    {
        match self.action {
            Action::SendMessage(chat, content) => SessionCall::Send { by: self.recipient, chat, content },
            Action::EditMessage(chat, message_id, content) => SessionCall::Edit {
                by: self.recipient,
                chat,
                message_id,
                content,
            },
            Action::SendViaBotMessage(chat, content) => SessionCall::Echo(InlineEcho::new(number, chat, content)),
            Action::Undefined => SessionCall::Skip,
        }
    }

    /// The call that performs the request; an inline-query round trip gets a freshly drawn
    /// random correlation value.
    pub fn dispatch(self) -> (r: SessionCall)
        ensures
            exists|n: i64| r@ == call_of(self@, n),
            !(self@.action is SendViaBotMessage) ==> r@ == call_of(self@, 0),
    {
        let number = if let Action::SendViaBotMessage(_, _) = &self.action {
            draw_number()
        } else {
            0
        };
        self.dispatch_with(number)
    }
}

/// The calls that performing the requests in order makes, one per request.
pub open spec fn calls_of(ms: Seq<MessageView>, numbers: Seq<i64>) -> Seq<CallView> {
    Seq::new(ms.len(), |i: int| call_of(ms[i], numbers[i]))
}

/// Performing `n` send requests for one session, in the order they were queued, makes exactly
/// `n` send calls on that session, in the same order, each with its request's chat and content.
pub proof fn lemma_sends_keep_order(ms: Seq<MessageView>, numbers: Seq<i64>, by: Recipient)
    requires
        numbers.len() == ms.len(),
        forall|i: int| 0 <= i < ms.len() ==> (#[trigger] ms[i]).action is SendMessage && ms[i].recipient == by,
    ensures
        calls_of(ms, numbers).len() == ms.len(),
        forall|i: int| 0 <= i < ms.len() ==> #[trigger] calls_of(ms, numbers)[i] == (CallView::Send {
            by,
            chat: ms[i].action->SendMessage_0,
            content: ms[i].action->SendMessage_1,
        }),
{
}

} // verus!
