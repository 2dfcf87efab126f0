//! What a webhook request asks for.

use vstd::prelude::*;
use vstd::string::*;
use crate::feishu::events::{
    card_action_of, content_of, inbound_of, member_added_of, parse_card_action,
    parse_inbound_message, parse_member_added, spelt_member, CardAction, InboundMessage,
    MemberAdded,
};
use crate::feishu::json::{or_text, Json, JsonView};
use crate::text::same_text;

verus! {

/// What an event request asks for.
#[derive(Debug)]
pub enum EventRequest {
    /// Setup: the challenge is to be sent back.
    Challenge(String),
    /// The token is wrong.
    BadToken,
    Message(InboundMessage),
    MembersAdded(MemberAdded),
    /// Nothing to do.
    Nothing,
}

/// What a card request asks for.
#[derive(Debug)]
pub enum CardRequest {
    /// Setup: the challenge is to be sent back.
    Challenge(String),
    /// The token is wrong.
    BadToken,
    Click(CardAction),
    /// Nothing to do.
    Nothing,
}

/// The challenge of a setup request.
pub open spec fn challenge_of(body: JsonView) -> Option<Seq<char>> {
    if body.get_text("type"@) == Some("url_verification"@) {
        body.get_text("challenge"@)
    } else {
        None
    }
}

fn find_challenge(body: &Json) -> (r: Option<&str>)
    ensures
        match r {
            Some(s) => challenge_of(body@) == Some(s@),
            None => challenge_of(body@) is None,
        },
{
    match body.get_str("type") {
        Some(t) => if same_text(t, "url_verification") {
            body.get_str("challenge")
        } else {
            None
        },
        None => None,
    }
}

/// The token that a request carries: that of its header, else its own.
pub open spec fn token_of(body: JsonView) -> Seq<char> {
    let t = match body.get2("header"@, "token"@) {
        Some(v) => Some(v),
        None => body.get("token"@),
    };
    match t {
        Some(v) => or_text(v.as_text(), ""@),
        None => ""@,
    }
}

/// Whether the request may be answered: the expected token, if one is
/// expected, is the one that it carries.
pub open spec fn token_accepted(body: JsonView, expected: Option<Seq<char>>) -> bool {
    match expected {
        Some(e) => e.len() == 0 || token_of(body) == e,
        None => true,
    }
}

pub open spec fn expected_view(expected: Option<&str>) -> Option<Seq<char>> {
    match expected {
        Some(s) => Some(s@),
        None => None,
    }
}

fn check_token(body: &Json, expected: Option<&str>) -> (r: bool)
    ensures
        r == token_accepted(body@, expected_view(expected)),
{
    let t = match body.get2("header", "token") {
        Some(v) => Some(v),
        None => body.get("token"),
    };
    let token = match t {
        Some(v) => match v.as_str() {
            Some(s) => s,
            None => "",
        },
        None => "",
    };
    match expected {
        Some(e) => e.unicode_len() == 0 || same_text(token, e),
        None => true,
    }
}

pub open spec fn event_type_of(body: JsonView) -> Seq<char> {
    or_text(body.get2_text("header"@, "event_type"@), ""@)
}

/// What an event request asks for. A setup request is answered whatever its
/// token; any other is looked at only if its token is right.
pub fn route_event(body: &Json, expected_token: Option<&str>) -> (r: EventRequest)
    ensures
        match challenge_of(body@) {
            Some(c) => r matches EventRequest::Challenge(s) && s@ == c,
            None => if !token_accepted(body@, expected_view(expected_token)) {
                r is BadToken
            } else if event_type_of(body@) == "im.message.receive_v1"@ {
                match content_of(body@) {
                    None => r is Nothing,
                    Some(content) => match inbound_of(body@, or_text(spelt_member(content, "text"@), ""@)) {
                        Some(m) => r matches EventRequest::Message(x) && x@ == m,
                        None => r is Nothing,
                    },
                }
            } else if event_type_of(body@) == "im.chat.member.user.added_v1"@ {
                match member_added_of(body@) {
                    Some(m) => r matches EventRequest::MembersAdded(x) && x@ == m,
                    None => r is Nothing,
                }
            } else if event_type_of(body@) == "url_verification"@ {
                match body@.get2_text("event"@, "challenge"@) {
                    Some(c) => r matches EventRequest::Challenge(s) && s@ == c,
                    None => r is Nothing,
                }
            } else {
                r is Nothing
            },
        },
{
    if let Some(c) = find_challenge(body) {
        return EventRequest::Challenge(c.to_owned());
    }
    if !check_token(body, expected_token) {
        return EventRequest::BadToken;
    }
    let event_type = match body.get2_str("header", "event_type") {
        Some(s) => s,
        None => "",
    };
    if same_text(event_type, "im.message.receive_v1") {
        match parse_inbound_message(body) {
            Some(m) => EventRequest::Message(m),
            None => EventRequest::Nothing,
        }
    } else if same_text(event_type, "im.chat.member.user.added_v1") {
        match parse_member_added(body) {
            Some(m) => EventRequest::MembersAdded(m),
            None => EventRequest::Nothing,
        }
    } else if same_text(event_type, "url_verification") {
        match body.get2_str("event", "challenge") {
            Some(c) => EventRequest::Challenge(c.to_owned()),
            None => EventRequest::Nothing,
        }
    } else {
        EventRequest::Nothing
    }
}

/// What a card request asks for.
pub fn route_card(body: &Json, expected_token: Option<&str>) -> (r: CardRequest)
    ensures
        match challenge_of(body@) {
            Some(c) => r matches CardRequest::Challenge(s) && s@ == c,
            None => if !token_accepted(body@, expected_view(expected_token)) {
                r is BadToken
            } else {
                match card_action_of(body@) {
                    Some(a) => r matches CardRequest::Click(x) && x@ == a,
                    None => r is Nothing,
                }
            },
        },
{
    if let Some(c) = find_challenge(body) {
        return CardRequest::Challenge(c.to_owned());
    }
    if !check_token(body, expected_token) {
        return CardRequest::BadToken;
    }
    match parse_card_action(body) {
        Some(a) => CardRequest::Click(a),
        None => CardRequest::Nothing,
    }
}

pub open spec fn challenge_reply_json(challenge: Seq<char>) -> JsonView {
    JsonView::object().with_text("challenge"@, challenge)
}

/// The answer to a setup request.
pub fn challenge_reply(challenge: &str) -> (r: Json)
    ensures
        r@ == challenge_reply_json(challenge@),
{
    Json::object().with_text("challenge", challenge)
}

pub open spec fn error_reply_json(message: Seq<char>) -> JsonView {
    JsonView::object().with(
        "toast"@,
        JsonView::object().with_text("type"@, "error"@).with_text("content"@, message),
    )
}

/// The answer to a click that failed.
pub fn error_reply(message: &str) -> (r: Json)
    ensures
        r@ == error_reply_json(message@),
{
    Json::object().with("toast", Json::object().with_text("type", "error").with_text("content", message))
}

} // verus!
