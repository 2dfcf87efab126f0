//! What is read out of the platform's requests and replies.

use vstd::prelude::*;
use vstd::string::*;
use crate::server::{challenge_of, event_type_of, token_accepted};
use super::client::{ephemeral_json, granted, members_of, message_json, next_page, token_life, DEFAULT_TOKEN_LIFE, TOKEN_MARGIN};
use super::events::{card_action_of, inbound_of, member_added_of, users_of, AddedUserView};
use super::json::{key_at, JsonView};

verus! {

// ---- members of objects ----

/// Whether the object holds this value under this key, and no other value in front of it.
pub open spec fn holds(j: JsonView, key: Seq<char>, value: JsonView) -> bool {
    j matches JsonView::Object(m) && exists|i: int|
        0 <= i < m.len() && #[trigger] m[i] == (key, value) && forall|k: int| 0 <= k < i ==> (#[trigger] m[k]).0 != key
}

proof fn found_first(m: Seq<(Seq<char>, JsonView)>, key: Seq<char>, from: int, i: int)
    requires
        0 <= from <= i < m.len(),
        m[i].0 == key,
        forall|k: int| from <= k < i ==> (#[trigger] m[k]).0 != key,
    ensures
        key_at(m, key, from) == Some(i),
    decreases i - from,
{
    if from < i {
        found_first(m, key, from + 1, i);
    }
}

proof fn found_is_first(m: Seq<(Seq<char>, JsonView)>, key: Seq<char>, from: int)
    requires
        0 <= from,
    ensures
        key_at(m, key, from) matches Some(i) ==> from <= i < m.len() && m[i].0 == key && forall|k: int|
            from <= k < i ==> (#[trigger] m[k]).0 != key,
    decreases m.len() - from,
{
    if from < m.len() && m[from].0 != key {
        found_is_first(m, key, from + 1);
    }
}

/// A member is found under its key, the first one where there are several.
pub proof fn a_member_is_found_by_its_key(j: JsonView, key: Seq<char>, value: JsonView)
    ensures
        j.get(key) == Some(value) <==> holds(j, key, value),
{
    if let JsonView::Object(m) = j {
        found_is_first(m, key, 0);
        if holds(j, key, value) {
            let i = choose|i: int|
                0 <= i < m.len() && #[trigger] m[i] == (key, value) && forall|k: int| 0 <= k < i ==> (#[trigger] m[k]).0 != key;
            found_first(m, key, 0, i);
        }
        if j.get(key) == Some(value) {
            let i = key_at(m, key, 0)->0;
            assert(m[i] == (key, value));
        }
    }
}

// ---- requests ----

/// Where a token is expected, a request is looked at only if it carries just that one:
/// in its header, or by itself where the header has none.
pub proof fn only_the_right_token_is_accepted(body: JsonView, expected: Seq<char>)
    requires
        expected.len() > 0,
    ensures
        token_accepted(body, Some(expected)) <==> (match body.get2("header"@, "token"@) {
            Some(v) => v == JsonView::Text(expected),
            None => body.get("token"@) == Some(JsonView::Text(expected)),
        }),
        token_accepted(body, None),
{
    reveal_strlit("");
    assert(""@ =~= Seq::<char>::empty());
}

/// Where no token is expected, or an empty one is set, every request is looked at.
pub proof fn without_a_token_all_is_accepted(body: JsonView)
    ensures
        token_accepted(body, None),
        token_accepted(body, Some(Seq::empty())),
{
}

/// An event has the kind that its header gives, and none where it gives none.
pub proof fn which_kind_an_event_has(body: JsonView, kind: Seq<char>)
    requires
        kind.len() > 0,
    ensures
        event_type_of(body) == kind <==> body.get2("header"@, "event_type"@) == Some(JsonView::Text(kind)),
{
    reveal_strlit("");
    assert(""@ =~= Seq::<char>::empty());
}

/// Only a setup request is a challenge, and it is sent back as it came.
pub proof fn a_challenge_is_sent_back(body: JsonView, c: Seq<char>)
    ensures
        challenge_of(body) == Some(c) <==> body.get("type"@) == Some(JsonView::Text("url_verification"@)) && body.get("challenge"@) == Some(
            JsonView::Text(c),
        ),
{
}

/// Who is the sender, which chat it was said in, and who is mentioned: a message event
/// tells them, and one that lacks sender, chat or content is none.
pub proof fn what_a_message_tells(payload: JsonView, event: JsonView, m: JsonView, text: Seq<char>)
    requires
        payload.get("event"@) == Some(event),
        event.get("message"@) == Some(m),
    ensures
        ({
            let r = inbound_of(payload, text);
            let sender = event.get3_text("sender"@, "sender_id"@, "open_id"@);
            let v = r->0;
            &&& r is Some <==> sender is Some && m.get_text("chat_id"@) is Some && m.get("chat_type"@) is Some && m.get("message_type"@) is Some
                && m.get_text("content"@) is Some
            &&& r is Some ==> sender == Some(v.sender_open_id)
            &&& r is Some ==> m.get_text("chat_id"@) == Some(v.chat_id)
            &&& r is Some ==> v.text == text
            &&& r is Some && m.get_text("chat_type"@) is Some ==> m.get_text("chat_type"@) == Some(v.chat_type)
            &&& r is Some && m.get_text("message_type"@) is Some ==> m.get_text("message_type"@) == Some(v.message_type)
            &&& r is Some && payload.get2_text("header"@, "event_id"@) is Some ==> payload.get2_text("header"@, "event_id"@) == Some(v.event_id)
            &&& r is Some ==> (m.get("mentions"@) matches Some(JsonView::List(items)) ==> {
                &&& v.mentions.len() == items.len()
                &&& forall|i: int| 0 <= i < items.len() && (#[trigger] items[i]).get_text("key"@) is Some ==> items[i].get_text("key"@) == Some(
                    v.mentions[i].key,
                )
                &&& forall|i: int| 0 <= i < items.len() && (#[trigger] items[i]).get2_text("id"@, "open_id"@) is Some ==> items[i].get2_text(
                    "id"@,
                    "open_id"@,
                ) == Some(v.mentions[i].open_id)
            })
        }),
{
}

/// A click tells who clicked, in which chat, and what the button and the form send.
pub proof fn what_a_click_tells(payload: JsonView, header: JsonView, event: JsonView)
    requires
        payload.get("schema"@) is Some,
        payload.get("header"@) == Some(header),
        payload.get("event"@) == Some(event),
    ensures
        ({
            let r = card_action_of(payload);
            let v = r->0;
            &&& r is Some <==> header.get_text("event_type"@) == Some("card.action.trigger"@) && event.get2_text("operator"@, "open_id"@) is Some
            &&& r is Some ==> event.get2_text("operator"@, "open_id"@) == Some(v.open_id)
            &&& r is Some && header.get_text("event_id"@) is Some ==> header.get_text("event_id"@) == Some(v.event_id)
            &&& r is Some && event.get2_text("context"@, "open_chat_id"@) is Some ==> event.get2_text("context"@, "open_chat_id"@) == Some(
                v.open_chat_id,
            )
            &&& r is Some && event.get2("action"@, "value"@) is Some ==> event.get2("action"@, "value"@) == Some(v.value)
            &&& r is Some && event.get2("action"@, "form_value"@) is Some ==> event.get2("action"@, "form_value"@) == Some(v.form_value)
        }),
{
}

/// So does one of the older shape.
pub proof fn what_a_flat_click_tells(payload: JsonView)
    requires
        payload.get("schema"@) is None,
    ensures
        ({
            let r = card_action_of(payload);
            let v = r->0;
            &&& r is Some <==> payload.get_text("open_id"@) is Some
            &&& r is Some ==> payload.get_text("open_id"@) == Some(v.open_id)
            &&& r is Some && payload.get_text("uuid"@) is Some ==> payload.get_text("uuid"@) == Some(v.event_id)
            &&& r is Some && payload.get("uuid"@) is None && payload.get_text("event_id"@) is Some ==> payload.get_text("event_id"@) == Some(
                v.event_id,
            )
            &&& r is Some && payload.get_text("open_chat_id"@) is Some ==> payload.get_text("open_chat_id"@) == Some(v.open_chat_id)
            &&& r is Some && payload.get2("action"@, "value"@) is Some ==> payload.get2("action"@, "value"@) == Some(v.value)
            &&& r is Some && payload.get2("action"@, "form_value"@) is Some ==> payload.get2("action"@, "form_value"@) == Some(v.form_value)
        }),
{
}

/// Whether the item of the list has this user's id.
pub open spec fn names_user(item: JsonView, u: AddedUserView) -> bool {
    &&& item.get2_text("user_id"@, "open_id"@) == Some(u.open_id)
    &&& item.get_text("name"@) is Some ==> item.get_text("name"@) == Some(u.name)
}

/// Whether an item has an id.
pub open spec fn has_id(item: JsonView) -> bool {
    item.get2_text("user_id"@, "open_id"@) is Some
}

/// Whether one of the items has this user's id.
pub open spec fn is_named(items: Seq<JsonView>, u: AddedUserView) -> bool {
    exists|i: int| 0 <= i < items.len() && names_user(#[trigger] items[i], u)
}

/// Whether one of the users has this item's id.
pub open spec fn is_told_of(users: Seq<AddedUserView>, item: JsonView) -> bool {
    exists|k: int| 0 <= k < users.len() && names_user(item, #[trigger] users[k])
}

proof fn users_are_named(items: Seq<JsonView>)
    ensures
        forall|k: int| 0 <= k < users_of(items).len() ==> is_named(items, #[trigger] users_of(items)[k]),
        forall|i: int| 0 <= i < items.len() && has_id(#[trigger] items[i]) ==> is_told_of(users_of(items), items[i]),
    decreases items.len(),
{
    if items.len() > 0 {
        let rest = items.drop_last();
        users_are_named(rest);
        let a = users_of(rest);
        let b = users_of(items);
        assert(items[items.len() - 1] == items.last());
        assert forall|k: int| 0 <= k < b.len() implies is_named(items, #[trigger] b[k]) by {
            if k < a.len() {
                assert(a[k] == b[k]);
                assert(is_named(rest, a[k]));
                let i = choose|i: int| 0 <= i < rest.len() && names_user(#[trigger] rest[i], a[k]);
                assert(names_user(items[i], b[k]));
            } else {
                assert(names_user(items[items.len() - 1], b[k]));
            }
        }
        assert forall|i: int| 0 <= i < items.len() && has_id(#[trigger] items[i]) implies is_told_of(b, items[i]) by {
            if i < rest.len() {
                assert(rest[i] == items[i]);
                assert(is_told_of(a, rest[i]));
                let k = choose|k: int| 0 <= k < a.len() && names_user(rest[i], #[trigger] a[k]);
                assert(names_user(items[i], b[k]));
            } else {
                assert(names_user(items[i], b[b.len() - 1]));
            }
        }
    }
}

/// An event about new members tells of everybody in its list who has an id, and of
/// nobody else.
pub proof fn whom_a_member_event_tells_of(payload: JsonView, event: JsonView, items: Seq<JsonView>)
    requires
        payload.get("event"@) == Some(event),
        event.get("users"@) == Some(JsonView::List(items)),
    ensures
        ({
            let r = member_added_of(payload);
            let v = r->0;
            &&& r is Some <==> event.get_text("chat_id"@) is Some && exists|i: int| 0 <= i < items.len() && has_id(#[trigger] items[i])
            &&& r is Some ==> event.get_text("chat_id"@) == Some(v.chat_id)
            &&& r is Some ==> forall|k: int| 0 <= k < v.users.len() ==> is_named(items, #[trigger] v.users[k])
            &&& r is Some ==> forall|i: int| 0 <= i < items.len() && has_id(#[trigger] items[i]) ==> is_told_of(v.users, items[i])
        }),
{
    users_are_named(items);
    let users = users_of(items);
    if users.len() > 0 {
        assert(is_named(items, users[0]));
        let i = choose|i: int| 0 <= i < items.len() && names_user(#[trigger] items[i], users[0]);
        assert(has_id(items[i]));
    }
    if exists|i: int| 0 <= i < items.len() && has_id(#[trigger] items[i]) {
        let i = choose|i: int| 0 <= i < items.len() && has_id(#[trigger] items[i]);
        assert(is_told_of(users, items[i]));
        assert(users.len() > 0);
    }
}

// ---- what is sent, and the replies ----

/// What a message body says: whom it is for, what kind it is and what it holds.
pub proof fn what_a_message_body_says(receive_id: Seq<char>, msg_type: Seq<char>, content: Seq<char>, id: Seq<char>)
    ensures
        ({
            let b = message_json(receive_id, msg_type, content, id);
            &&& b.get_text("receive_id"@) == Some(receive_id)
            &&& b.get_text("msg_type"@) == Some(msg_type)
            &&& b.get_text("content"@) == Some(content)
            &&& b.get_text("uuid"@) == Some(id)
        }),
{
    reveal_strlit("receive_id");
    reveal_strlit("msg_type");
    reveal_strlit("content");
    reveal_strlit("uuid");
    assert("receive_id"@.len() == 10 && "msg_type"@.len() == 8 && "content"@.len() == 7 && "uuid"@.len() == 4);
    reveal_with_fuel(key_at, 6);
}

/// A card that only one person sees is for that person, in that chat.
pub proof fn whom_a_private_card_is_for(chat_id: Seq<char>, open_id: Seq<char>, card: JsonView)
    ensures
        ({
            let b = ephemeral_json(chat_id, open_id, card);
            &&& b.get_text("chat_id"@) == Some(chat_id)
            &&& b.get_text("open_id"@) == Some(open_id)
            &&& b.get("card"@) == Some(card)
        }),
{
    reveal_strlit("chat_id");
    reveal_strlit("open_id");
    reveal_strlit("msg_type");
    reveal_strlit("card");
    assert("chat_id"@[0] == 'c' && "open_id"@[0] == 'o' && "msg_type"@.len() == 8 && "card"@.len() == 4 && "chat_id"@.len() == 7);
    reveal_with_fuel(key_at, 6);
}

/// A reply is a success where its code is zero, and only there.
pub proof fn when_a_reply_is_a_success(reply: JsonView, code: int)
    requires
        reply.get("code"@) == Some(JsonView::Int(code)),
    ensures
        granted(reply) <==> code == 0,
{
}

/// A token is used until a while before it runs out.
pub proof fn how_long_a_token_is_used(reply: JsonView)
    ensures
        ({
            let expire = match reply.get_number("expire"@) {
                Some(n) => n,
                None => DEFAULT_TOKEN_LIFE as int,
            };
            &&& 0 <= token_life(reply)
            &&& expire >= TOKEN_MARGIN ==> token_life(reply) + TOKEN_MARGIN == expire
            &&& expire < TOKEN_MARGIN ==> token_life(reply) == 0
        }),
{
}

/// There is another page exactly where the reply says so and names it.
pub proof fn when_there_is_another_page(reply: JsonView, page: Seq<char>)
    ensures
        next_page(reply) == Some(page) <==> reply.get2("data"@, "has_more"@) == Some(JsonView::Bool(true)) && reply.get2("data"@, "page_token"@)
            == Some(JsonView::Text(page)),
{
}

/// Everybody in the list who has an id is a member, in order.
pub proof fn who_is_a_member(items: Seq<JsonView>, item: JsonView, id: Seq<char>, name: Seq<char>)
    requires
        item.get_text("member_id"@) == Some(id),
        item.get_text("name"@) == Some(name),
    ensures
        id.len() > 0 ==> members_of(items.push(item)) == members_of(items).push((id, name)),
        id.len() == 0 ==> members_of(items.push(item)) == members_of(items),
        members_of(Seq::<JsonView>::empty()).len() == 0,
{
    assert(items.push(item).drop_last() =~= items);
}

} // verus!
