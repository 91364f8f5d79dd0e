use relaybot::echo::{InlineEcho, Poll, RequesterStep, ResponderStep};
use relaybot::relay::{Action, ChatKind, ChatRef, Content, InlineButton, Message, Recipient, SessionCall};

fn chat(id: i64) -> ChatRef {
    ChatRef { kind: ChatKind::User, id, access_hash: Some(99) }
}

#[test]
fn sends_are_performed_in_order_by_their_session() {
    let requests: Vec<Message> = (0..5)
        .map(|i| Message::to_user().send_message(chat(i), Content::html(format!("m{}", i))))
        .collect();
    let calls: Vec<SessionCall> = requests.into_iter().map(|m| m.dispatch()).collect();
    assert_eq!(calls.len(), 5);
    for (i, call) in calls.iter().enumerate() {
        match call {
            SessionCall::Send { by, chat: c, content } => {
                assert_eq!(*by, Recipient::User);
                assert_eq!(*c, chat(i as i64));
                assert_eq!(content.text(), format!("m{}", i));
            }
            _ => panic!("expected a send"),
        }
    }
}

#[test]
fn edit_goes_to_the_recipient_session() {
    let m = Message::to_bot().edit_message(chat(3), 17, Content::html("new".to_string()));
    assert_eq!(*m.recipient(), Recipient::Bot);
    assert!(matches!(m.action(), Action::EditMessage(_, 17, _)));
    match m.dispatch() {
        SessionCall::Edit { by, chat: c, message_id, content } => {
            assert_eq!(by, Recipient::Bot);
            assert_eq!(c, chat(3));
            assert_eq!(message_id, 17);
            assert_eq!(content.text(), "new");
        }
        _ => panic!("expected an edit"),
    }
}

#[test]
fn request_without_action_is_skipped() {
    let m = Message::to_user();
    assert!(matches!(m.action(), Action::Undefined));
    assert!(matches!(m.dispatch(), SessionCall::Skip));
    let (action, recipient) = Message::to_bot().unwrap();
    assert!(matches!(action, Action::Undefined));
    assert_eq!(recipient, Recipient::Bot);
}

#[test]
fn via_bot_becomes_an_echo_round_trip() {
    let m = Message::to_bot().send_via_bot_message(chat(8), Content::html("hi".to_string()));
    match m.dispatch_with(12345) {
        SessionCall::Echo(e) => {
            assert_eq!(e.nonce(), "12345");
            assert_eq!(e.chat(), chat(8));
        }
        _ => panic!("expected an echo"),
    }
    let drawn = Message::to_bot().send_via_bot_message(chat(8), Content::html("hi".to_string())).dispatch();
    match drawn {
        SessionCall::Echo(e) => assert!(e.nonce().parse::<i64>().is_ok()),
        _ => panic!("expected an echo"),
    }
}

#[test]
fn echo_round_trip_delivers_the_content() {
    let e = InlineEcho::new(12345, chat(5), Content::html("hello".to_string()));
    assert_eq!(e.nonce(), "12345");
    assert_eq!(e.responder_step(Some("999")), ResponderStep::Wait);
    assert_eq!(e.responder_step(None), ResponderStep::Wait);
    assert_eq!(e.responder_step(Some("12345")), ResponderStep::Answer);
    let req = e.requester();
    assert_eq!(req.nonce(), "12345");
    assert_eq!(req.chat(), chat(5));
    assert_eq!(req.step(&Poll::Empty), RequesterStep::Retry);
    assert_eq!(req.step(&Poll::TimedOut), RequesterStep::Retry);
    assert_eq!(req.step(&Poll::Result(Some("other".to_string()))), RequesterStep::Skip);
    assert_eq!(req.step(&Poll::Result(None)), RequesterStep::Skip);
    assert_eq!(req.step(&Poll::Result(Some("12345".to_string()))), RequesterStep::Select);
    assert_eq!(req.step(&Poll::Failed), RequesterStep::Abort);
    assert_eq!(e.chat(), chat(5));
    let (title, payload) = e.into_answer();
    assert_eq!(title, "12345");
    assert_eq!(payload.text(), "hello");
}

#[test]
fn nonce_of_negative_number() {
    let e = InlineEcho::new(-42, chat(1), Content::html(String::new()));
    assert_eq!(e.nonce(), "-42");
    assert_eq!(e.requester().step(&Poll::Result(Some("-42".to_string()))), RequesterStep::Select);
}

#[test]
fn content_keeps_its_keyboard() {
    let kb = vec![vec![InlineButton::new("a".to_string(), "x".to_string())]];
    let c = Content::html("<b>t</b>".to_string()).with_keyboard(kb);
    assert_eq!(c.text(), "<b>t</b>");
    assert_eq!(c.keyboard().len(), 1);
    assert_eq!(c.keyboard()[0][0].text(), "a");
    assert_eq!(c.keyboard()[0][0].data(), "x");
}

#[test]
fn decimal_text_matches_std() {
    for n in [0i64, 7, 10, 12345, -1, -10, i64::MAX, i64::MIN] {
        assert_eq!(relaybot::text::int_to_text(n), n.to_string());
    }
}

#[test]
fn words_match_split_whitespace() {
    for text in ["", "   ", ".eval 1 + 2", "  a  b\tc\nd  ", "x\u{00A0}y\u{3000}z", "one", ".ss http://a.b extra"] {
        let expected: Vec<String> = text.split_whitespace().map(|w| w.to_string()).collect();
        assert_eq!(relaybot::text::words(text), expected, "{:?}", text);
    }
}
