//! The webhook requests of the chat platform, and the subscription that a
//! request's text asks for.
use vstd::prelude::*;
use crate::schema::{event_type_of, Event, EventType};
use crate::text::{trim, trimmed};

verus! {

pub struct TextEventRequest {
    pub update_id: i64,
    pub message: TextMessage,
}

pub struct TextMessage {
    pub date: i64,
    pub chat: Chat,
    pub message_id: i64,
    pub from: From,
    pub text: String,
}

pub struct Chat {
    pub last_name: String,
    pub id: i64,
    pub chat_type: String,
    pub first_name: String,
    pub username: String,
}

/// The sender of a message.
pub struct From {
    pub last_name: String,
    pub id: i64,
    pub first_name: String,
    pub username: String,
}

/// A message's text without surrounding whitespace and without one leading `/`.
pub open spec fn command_name(text: Seq<char>) -> Seq<char> {
    let t = trimmed(text);
    if t.len() > 0 && t[0] == '/' {
        t.subrange(1, t.len() as int)
    } else {
        t
    }
}

/// The command name in a request's text.
pub fn get_text(req: &TextEventRequest) -> (r: String)
    ensures
        r@ == command_name(req.message.text@),
{
    let text = trim(req.message.text.as_str());
    let n = text.as_str().unicode_len();
    if n > 0 && text.as_str().get_char(0) == '/' {
        String::from_str(text.as_str().substring_char(1, n))
    } else {
        text
    }
}

/// The subscription that a request asks for: of the request's chat, of the
/// kind its command names, by the sender.
pub fn event_from_request(req: &TextEventRequest) -> (r: Event)
    ensures
        r.id == 0,
        r.chat_id == req.message.chat.id,
        r.typ == event_type_of(command_name(req.message.text@)),
        r.user == Some(req.message.from.first_name),
        r.meta is None,
{
    let text = get_text(req);
    Event {
        id: 0,
        chat_id: req.message.chat.id,
        typ: EventType::from_name(text.as_str()),
        user: Some(req.message.from.first_name.clone()),
        meta: None,
    }
}

} // verus!
