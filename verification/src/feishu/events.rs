//! Typed views over the parts of webhook payloads that the bot uses.
//!
//! There are two webhook formats: the v2 schema (`{schema: "2.0", header, event}`)
//! and flat payloads. Only the fields that are used are read.

use vstd::prelude::*;
use crate::text::same_text;
use super::json::{copied_or_null, or_text, owned_or, Json, JsonView};

verus! {

#[derive(Debug, Clone)]
pub struct InboundMessage {
    pub event_id: String,
    pub chat_id: String,
    /// `group` or `p2p`.
    pub chat_type: String,
    pub sender_open_id: String,
    pub message_type: String,
    pub text: String,
    pub mentions: Vec<Mention>,
}

#[derive(Debug, Clone)]
pub struct Mention {
    pub key: String,
    pub open_id: String,
}

#[verifier::ext_equal]
pub struct MentionView {
    pub key: Seq<char>,
    pub open_id: Seq<char>,
}

impl View for Mention {
    type V = MentionView;

    open spec fn view(&self) -> MentionView {
        MentionView { key: self.key@, open_id: self.open_id@ }
    }
}

pub open spec fn mentions_view(m: Seq<Mention>) -> Seq<MentionView> {
    m.map_values(|x: Mention| x@)
}

#[verifier::ext_equal]
pub struct InboundView {
    pub event_id: Seq<char>,
    pub chat_id: Seq<char>,
    pub chat_type: Seq<char>,
    pub sender_open_id: Seq<char>,
    pub message_type: Seq<char>,
    pub text: Seq<char>,
    pub mentions: Seq<MentionView>,
}

impl View for InboundMessage {
    type V = InboundView;

    open spec fn view(&self) -> InboundView {
        InboundView {
            event_id: self.event_id@,
            chat_id: self.chat_id@,
            chat_type: self.chat_type@,
            sender_open_id: self.sender_open_id@,
            message_type: self.message_type@,
            text: self.text@,
            mentions: mentions_view(self.mentions@),
        }
    }
}

/// The `event` part of a payload, or the payload itself.
pub open spec fn event_of(payload: JsonView) -> JsonView {
    match payload.get("event"@) {
        Some(e) => e,
        None => payload,
    }
}

fn event_part(payload: &Json) -> (r: &Json)
    ensures
        r@ == event_of(payload@),
{
    match payload.get("event") {
        Some(e) => e,
        None => payload,
    }
}

pub open spec fn event_id_of(payload: JsonView) -> Seq<char> {
    or_text(payload.get2_text("header"@, "event_id"@), ""@)
}

fn event_id(payload: &Json) -> (r: String)
    ensures
        r@ == event_id_of(payload@),
{
    owned_or(payload.get2_str("header", "event_id"), "")
}

/// The encoded content of a message event, if the event is one.
pub open spec fn content_of(payload: JsonView) -> Option<Seq<char>> {
    event_of(payload).get2_text("message"@, "content"@)
}

/// The text that a member is, or another text where it is none; nothing if
/// there is no such member.
pub open spec fn text_if_there(j: JsonView, key: Seq<char>, default: Seq<char>) -> Option<Seq<char>> {
    match j.get(key) {
        Some(v) => Some(or_text(v.as_text(), default)),
        None => None,
    }
}

fn str_if_there<'a>(j: &'a Json, key: &str, default: &'a str) -> (r: Option<&'a str>)
    ensures
        match r {
            Some(s) => text_if_there(j@, key@, default@) == Some(s@),
            None => text_if_there(j@, key@, default@) is None,
        },
{
    match j.get(key) {
        Some(v) => match v.as_str() {
            Some(s) => Some(s),
            None => Some(default),
        },
        None => None,
    }
}

pub open spec fn mention_of(j: JsonView) -> MentionView {
    MentionView {
        key: or_text(j.get_text("key"@), ""@),
        open_id: or_text(j.get2_text("id"@, "open_id"@), ""@),
    }
}

/// Everybody who is mentioned in a message.
pub open spec fn mentions_of(message: JsonView) -> Seq<MentionView> {
    match message.get("mentions"@) {
        Some(JsonView::List(items)) => Seq::new(items.len(), |i: int| mention_of(items[i])),
        _ => Seq::empty(),
    }
}

fn parse_mentions(message: &Json) -> (r: Vec<Mention>)
    ensures
        mentions_view(r@) == mentions_of(message@),
{
    let mut out: Vec<Mention> = Vec::new();
    if let Some(list) = message.get("mentions") {
        if let Json::List(items) = list {
            let ghost all = list@->List_0;
            let mut i: usize = 0;
            while i < items.len()
                invariant
                    i <= items@.len(),
                    all =~= super::json::list_view(items@),
                    out@.len() == i,
                    forall|k: int| 0 <= k < i ==> (#[trigger] out@[k])@ == mention_of(all[k]),
                decreases items@.len() - i,
            {
                let m = &items[i];
                let key = owned_or(m.get_str("key"), "");
                let open_id = owned_or(m.get2_str("id", "open_id"), "");
                out.push(Mention { key, open_id });
                i = i + 1;
            }
            assert(mentions_view(out@) =~= mentions_of(message@));
            return out;
        }
    }
    assert(mentions_view(out@) =~= mentions_of(message@));
    out
}

/// The message that a payload brings, with `text` as what its content says.
pub open spec fn inbound_of(payload: JsonView, text: Seq<char>) -> Option<InboundView> {
    let event = event_of(payload);
    match (event.get3_text("sender"@, "sender_id"@, "open_id"@), event.get("message"@)) {
        (Some(sender), Some(m)) => match (
            m.get_text("chat_id"@),
            text_if_there(m, "chat_type"@, "group"@),
            text_if_there(m, "message_type"@, "text"@),
            m.get_text("content"@),
        ) {
            (Some(chat_id), Some(chat_type), Some(message_type), Some(_)) => Some(
                InboundView {
                    event_id: event_id_of(payload),
                    chat_id,
                    chat_type,
                    sender_open_id: sender,
                    message_type,
                    text,
                    mentions: mentions_of(m),
                },
            ),
            _ => None,
        },
        _ => None,
    }
}

/// The message that a payload brings, once its content has been read as `text`.
pub fn inbound_message(payload: &Json, text: String) -> (r: Option<InboundMessage>)
    ensures
        match r {
            Some(m) => inbound_of(payload@, text@) == Some(m@),
            None => inbound_of(payload@, text@) is None,
        },
{
    let event = event_part(payload);
    let sender = match event.get3_str("sender", "sender_id", "open_id") {
        Some(s) => s,
        None => {
            return None;
        },
    };
    let m = match event.get("message") {
        Some(m) => m,
        None => {
            return None;
        },
    };
    let chat_id = match m.get_str("chat_id") {
        Some(s) => s,
        None => {
            return None;
        },
    };
    let chat_type = match str_if_there(m, "chat_type", "group") {
        Some(s) => s,
        None => {
            return None;
        },
    };
    let message_type = match str_if_there(m, "message_type", "text") {
        Some(s) => s,
        None => {
            return None;
        },
    };
    if m.get_str("content").is_none() {
        return None;
    }
    Some(
        InboundMessage {
            event_id: event_id(payload),
            chat_id: chat_id.to_owned(),
            chat_type: chat_type.to_owned(),
            sender_open_id: sender.to_owned(),
            message_type: message_type.to_owned(),
            text,
            mentions: parse_mentions(m),
        },
    )
}

/// The text of a member of the JSON object that `source` spells out, as
/// [`sonic_rs::from_str`] reads it; nothing where `source` spells no object or
/// the member is no text.
pub uninterp spec fn spelt_member(source: Seq<char>, key: Seq<char>) -> Option<Seq<char>>;

/// `sonic_rs::from_str` reads a JSON value from its text. What it reads is named
/// by [`spelt_member`].
#[verifier::external_body]
fn read_member(source: &str, key: &str) -> (r: Option<String>)
    ensures
        match r {
            Some(s) => spelt_member(source@, key@) == Some(s@),
            None => spelt_member(source@, key@) is None,
        },
{
    let value: serde_json::Value = sonic_rs::from_str(source).unwrap_or(serde_json::Value::Null);
    value.get(key).and_then(|v| v.as_str()).map(|s| s.to_owned())
}

/// The message that a payload brings.
pub fn parse_inbound_message(payload: &Json) -> (r: Option<InboundMessage>)
    ensures
        match content_of(payload@) {
            None => r is None,
            Some(content) => ({
                let text = or_text(spelt_member(content, "text"@), ""@);
                match r {
                    Some(m) => inbound_of(payload@, text) == Some(m@),
                    None => inbound_of(payload@, text) is None,
                }
            }),
        },
{
    let content = match event_part(payload).get2_str("message", "content") {
        Some(c) => c,
        None => {
            return None;
        },
    };
    let text = match read_member(content, "text") {
        Some(t) => t,
        None => "".to_owned(),
    };
    inbound_message(payload, text)
}

#[derive(Debug)]
pub struct CardAction {
    /// Stable identifier used to drop duplicate deliveries of the same click —
    /// the callback URL may be invoked more than once for a single user action.
    pub event_id: String,
    pub open_id: String,
    pub open_chat_id: String,
    pub value: Json,
    /// `event.action.form_value` — populated when a submit button is clicked.
    /// Keys are the `name` of each input inside the form.
    pub form_value: Json,
}

#[verifier::ext_equal]
pub struct CardActionView {
    pub event_id: Seq<char>,
    pub open_id: Seq<char>,
    pub open_chat_id: Seq<char>,
    pub value: JsonView,
    pub form_value: JsonView,
}

impl View for CardAction {
    type V = CardActionView;

    open spec fn view(&self) -> CardActionView {
        CardActionView {
            event_id: self.event_id@,
            open_id: self.open_id@,
            open_chat_id: self.open_chat_id@,
            value: self.value@,
            form_value: self.form_value@,
        }
    }
}

#[derive(Debug, Clone)]
pub struct MemberAdded {
    pub event_id: String,
    pub chat_id: String,
    pub users: Vec<AddedUser>,
}

#[derive(Debug, Clone)]
pub struct AddedUser {
    pub open_id: String,
    pub name: String,
}

#[verifier::ext_equal]
pub struct AddedUserView {
    pub open_id: Seq<char>,
    pub name: Seq<char>,
}

impl View for AddedUser {
    type V = AddedUserView;

    open spec fn view(&self) -> AddedUserView {
        AddedUserView { open_id: self.open_id@, name: self.name@ }
    }
}

pub open spec fn users_view(users: Seq<AddedUser>) -> Seq<AddedUserView> {
    users.map_values(|u: AddedUser| u@)
}

#[verifier::ext_equal]
pub struct MemberAddedView {
    pub event_id: Seq<char>,
    pub chat_id: Seq<char>,
    pub users: Seq<AddedUserView>,
}

impl View for MemberAdded {
    type V = MemberAddedView;

    open spec fn view(&self) -> MemberAddedView {
        MemberAddedView { event_id: self.event_id@, chat_id: self.chat_id@, users: users_view(self.users@) }
    }
}

/// The users of the list that have an id, in order.
pub open spec fn users_of(items: Seq<JsonView>) -> Seq<AddedUserView>
    decreases items.len(),
{
    if items.len() == 0 {
        Seq::empty()
    } else {
        let rest = users_of(items.drop_last());
        match items.last().get2_text("user_id"@, "open_id"@) {
            Some(open_id) => rest.push(
                AddedUserView { open_id, name: or_text(items.last().get_text("name"@), "新玩家"@) },
            ),
            None => rest,
        }
    }
}

/// What an event about new group members says; nothing if it names nobody.
pub open spec fn member_added_of(payload: JsonView) -> Option<MemberAddedView> {
    let event = event_of(payload);
    match (event.get_text("chat_id"@), event.get("users"@)) {
        (Some(chat_id), Some(JsonView::List(items))) => if users_of(items).len() == 0 {
            None
        } else {
            Some(MemberAddedView { event_id: event_id_of(payload), chat_id, users: users_of(items) })
        },
        _ => None,
    }
}

/// Parse a `im.chat.member.user.added_v1` event payload (full body, with header).
pub fn parse_member_added(payload: &Json) -> (r: Option<MemberAdded>)
    ensures
        match r {
            Some(m) => member_added_of(payload@) == Some(m@),
            None => member_added_of(payload@) is None,
        },
{
    let event = event_part(payload);
    let chat_id = match event.get_str("chat_id") {
        Some(s) => s.to_owned(),
        None => {
            return None;
        },
    };
    let list = match event.get("users") {
        Some(l) => l,
        None => {
            return None;
        },
    };
    let items = match list {
        Json::List(items) => items,
        _ => {
            return None;
        },
    };
    let ghost all = list@->List_0;
    let mut users: Vec<AddedUser> = Vec::new();
    let mut i: usize = 0;
    while i < items.len()
        invariant
            i <= items@.len(),
            all =~= super::json::list_view(items@),
            users_view(users@) =~= users_of(all.take(i as int)),
        decreases items@.len() - i,
    {
        assert(all.take(i + 1).drop_last() =~= all.take(i as int));
        assert(all.take(i + 1).last() == items@[i as int]@);
        let u = &items[i];
        if let Some(open_id) = u.get2_str("user_id", "open_id") {
            let name = owned_or(u.get_str("name"), "新玩家");
            users.push(AddedUser { open_id: open_id.to_owned(), name });
        }
        i = i + 1;
    }
    assert(all.take(items@.len() as int) =~= all);
    if users.len() == 0 {
        None
    } else {
        Some(MemberAdded { event_id: event_id(payload), chat_id, users })
    }
}

/// A value, or null where there is none.
pub open spec fn or_null(v: Option<JsonView>) -> JsonView {
    match v {
        Some(j) => j,
        None => JsonView::Null,
    }
}

/// The click that a payload of the newer shape brings.
pub open spec fn wrapped_action_of(payload: JsonView) -> Option<CardActionView> {
    match (payload.get("header"@), payload.get("event"@)) {
        (Some(header), Some(event)) => if header.get_text("event_type"@) != Some("card.action.trigger"@) {
            None
        } else {
            match event.get2_text("operator"@, "open_id"@) {
                Some(open_id) => Some(
                    CardActionView {
                        event_id: or_text(header.get_text("event_id"@), ""@),
                        open_id,
                        open_chat_id: or_text(event.get2_text("context"@, "open_chat_id"@), ""@),
                        value: or_null(event.get2("action"@, "value"@)),
                        form_value: or_null(event.get2("action"@, "form_value"@)),
                    },
                ),
                None => None,
            }
        },
        _ => None,
    }
}

/// The id of a flat payload: its `uuid` if it has one, else its `event_id`.
pub open spec fn flat_event_id(payload: JsonView) -> Seq<char> {
    let id = match payload.get("uuid"@) {
        Some(v) => Some(v),
        None => payload.get("event_id"@),
    };
    match id {
        Some(v) => or_text(v.as_text(), ""@),
        None => ""@,
    }
}

/// The click that a flat payload brings.
pub open spec fn flat_action_of(payload: JsonView) -> Option<CardActionView> {
    match payload.get_text("open_id"@) {
        Some(open_id) => Some(
            CardActionView {
                event_id: flat_event_id(payload),
                open_id,
                open_chat_id: or_text(payload.get_text("open_chat_id"@), ""@),
                value: or_null(payload.get2("action"@, "value"@)),
                form_value: or_null(payload.get2("action"@, "form_value"@)),
            },
        ),
        None => None,
    }
}

/// The click that a payload brings, whichever shape it has.
pub open spec fn card_action_of(payload: JsonView) -> Option<CardActionView> {
    if payload.get("schema"@) is Some {
        wrapped_action_of(payload)
    } else {
        flat_action_of(payload)
    }
}

/// Card action payloads come in two slightly different shapes depending on the
/// callback version selected in the bot's settings. Try both.
pub fn parse_card_action(payload: &Json) -> (r: Option<CardAction>)
    ensures
        match r {
            Some(a) => card_action_of(payload@) == Some(a@),
            None => card_action_of(payload@) is None,
        },
{
    // Newer schema 2.0 wrapper
    if payload.get("schema").is_some() {
        return parse_wrapped_action(payload);
    }
    // Flat payload from the card request URL
    let id = match payload.get("uuid") {
        Some(v) => Some(v),
        None => payload.get("event_id"),
    };
    let event_id = match id {
        Some(v) => owned_or(v.as_str(), ""),
        None => "".to_owned(),
    };
    let open_id = match payload.get_str("open_id") {
        Some(s) => s.to_owned(),
        None => {
            return None;
        },
    };
    let open_chat_id = owned_or(payload.get_str("open_chat_id"), "");
    let value = copied_or_null(payload.get2("action", "value"));
    let form_value = copied_or_null(payload.get2("action", "form_value"));
    Some(CardAction { event_id, open_id, open_chat_id, value, form_value })
}

fn parse_wrapped_action(payload: &Json) -> (r: Option<CardAction>)
    ensures
        match r {
            Some(a) => wrapped_action_of(payload@) == Some(a@),
            None => wrapped_action_of(payload@) is None,
        },
{
    let header = match payload.get("header") {
        Some(h) => h,
        None => {
            return None;
        },
    };
    match header.get_str("event_type") {
        Some(t) => {
            if !same_text(t, "card.action.trigger") {
                return None;
            }
        },
        None => {
            return None;
        },
    }
    let event_id = owned_or(header.get_str("event_id"), "");
    let event = match payload.get("event") {
        Some(e) => e,
        None => {
            return None;
        },
    };
    let open_id = match event.get2_str("operator", "open_id") {
        Some(s) => s.to_owned(),
        None => {
            return None;
        },
    };
    let open_chat_id = owned_or(event.get2_str("context", "open_chat_id"), "");
    let value = copied_or_null(event.get2("action", "value"));
    let form_value = copied_or_null(event.get2("action", "form_value"));
    Some(CardAction { event_id, open_id, open_chat_id, value, form_value })
}

} // verus!
