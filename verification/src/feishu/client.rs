//! The requests that are sent to the Feishu API, and what its replies say.

use vstd::prelude::*;
use vstd::string::*;
use crate::text::plus;
use super::json::{list_view, or_text, Json, JsonView};

verus! {

/// Why a request has come to nothing. The reply itself goes with it when the
/// failure is reported.
#[derive(Debug, Clone, Copy, PartialEq, Eq, Structural)]
pub enum ApiError {
    /// The reply's code says that the request failed.
    Refused,
    /// The reply to a request for a token holds none.
    NoToken,
}

pub const TOKEN_URL: &'static str = "https://open.feishu.cn/open-apis/auth/v3/tenant_access_token/internal";

pub const EPHEMERAL_URL: &'static str = "https://open.feishu.cn/open-apis/ephemeral/v1/send";

pub const DELETE_EPHEMERAL_URL: &'static str = "https://open.feishu.cn/open-apis/ephemeral/v1/delete";

/// How long a token is taken to last where the reply does not say, in seconds.
pub const DEFAULT_TOKEN_LIFE: u64 = 7200;

/// How long before its end a token is given up, in seconds.
pub const TOKEN_MARGIN: u64 = 60;

/// Whether the reply's code says that the request was granted.
pub open spec fn granted(reply: JsonView) -> bool {
    reply.get("code"@) == Some(JsonView::Int(0))
}

fn is_granted(reply: &Json) -> (r: bool)
    ensures
        r == granted(reply@),
{
    match reply.get("code") {
        Some(v) => match v {
            Json::Int(n) => *n == 0,
            _ => false,
        },
        None => false,
    }
}

pub open spec fn token_request_json(app_id: Seq<char>, app_secret: Seq<char>) -> JsonView {
    JsonView::object().with_text("app_id"@, app_id).with_text("app_secret"@, app_secret)
}

/// A request for a tenant access token.
pub fn token_request(app_id: &str, app_secret: &str) -> (r: Json)
    ensures
        r@ == token_request_json(app_id@, app_secret@),
{
    Json::object().with_text("app_id", app_id).with_text("app_secret", app_secret)
}

/// For how many seconds a token is used.
pub open spec fn token_life(reply: JsonView) -> int {
    let expire = match reply.get_number("expire"@) {
        Some(n) => n,
        None => DEFAULT_TOKEN_LIFE as int,
    };
    if expire < TOKEN_MARGIN { 0 } else { expire - TOKEN_MARGIN }
}

/// The token and for how many seconds it is to be used.
pub fn read_token(reply: &Json) -> (r: Result<(String, u64), ApiError>)
    ensures
        match r {
            Ok((token, life)) => granted(reply@) && reply@.get_text("tenant_access_token"@) == Some(token@) && life
                == token_life(reply@),
            Err(ApiError::Refused) => !granted(reply@),
            Err(ApiError::NoToken) => granted(reply@) && reply@.get_text("tenant_access_token"@) is None,
        },
{
    if !is_granted(reply) {
        return Err(ApiError::Refused);
    }
    let token = match reply.get_str("tenant_access_token") {
        Some(s) => s.to_owned(),
        None => {
            return Err(ApiError::NoToken);
        },
    };
    let expire: u64 = match reply.get_u64("expire") {
        Some(n) => n,
        None => DEFAULT_TOKEN_LIFE,
    };
    let life: u64 = if expire < TOKEN_MARGIN { 0 } else { expire - TOKEN_MARGIN };
    Ok((token, life))
}

pub open spec fn message_url_text(receive_id_type: Seq<char>) -> Seq<char> {
    "https://open.feishu.cn/open-apis/im/v1/messages?receive_id_type="@ + receive_id_type
}

pub fn message_url(receive_id_type: &str) -> (r: String)
    ensures
        r@ == message_url_text(receive_id_type@),
{
    plus("https://open.feishu.cn/open-apis/im/v1/messages?receive_id_type=".to_owned(), receive_id_type)
}

pub open spec fn message_json(receive_id: Seq<char>, msg_type: Seq<char>, content: Seq<char>, id: Seq<char>) -> JsonView {
    JsonView::object()
        .with_text("receive_id"@, receive_id)
        .with_text("msg_type"@, msg_type)
        .with_text("content"@, content)
        .with_text("uuid"@, id)
}

/// A message. Its content is JSON written out as a text; the id makes a second
/// delivery of the same message harmless.
pub fn message_body(receive_id: &str, msg_type: &str, content: &str, id: &str) -> (r: Json)
    ensures
        r@ == message_json(receive_id@, msg_type@, content@, id@),
{
    Json::object()
        .with_text("receive_id", receive_id)
        .with_text("msg_type", msg_type)
        .with_text("content", content)
        .with_text("uuid", id)
}

pub open spec fn ephemeral_json(chat_id: Seq<char>, open_id: Seq<char>, card: JsonView) -> JsonView {
    JsonView::object()
        .with_text("chat_id"@, chat_id)
        .with_text("open_id"@, open_id)
        .with_text("msg_type"@, "interactive"@)
        .with("card"@, card)
}

/// A card that one user of the chat sees.
pub fn ephemeral_body(chat_id: &str, open_id: &str, card: Json) -> (r: Json)
    ensures
        r@ == ephemeral_json(chat_id@, open_id@, card@),
{
    Json::object()
        .with_text("chat_id", chat_id)
        .with_text("open_id", open_id)
        .with_text("msg_type", "interactive")
        .with("card", card)
}

/// Take an ephemeral card away. Such a card cannot be replaced: to change it,
/// take it away and send another.
pub fn delete_body(message_id: &str) -> (r: Json)
    ensures
        r@ == JsonView::object().with_text("message_id"@, message_id@),
{
    Json::object().with_text("message_id", message_id)
}

pub fn update_url(message_id: &str) -> (r: String)
    ensures
        r@ == "https://open.feishu.cn/open-apis/im/v1/messages/"@ + message_id@,
{
    plus("https://open.feishu.cn/open-apis/im/v1/messages/".to_owned(), message_id)
}

/// Replace a card by one that is written out as a text.
pub fn update_body(card: &str) -> (r: Json)
    ensures
        r@ == JsonView::object().with_text("content"@, card@),
{
    Json::object().with_text("content", card)
}

/// The id of the message that was sent, empty where the reply holds none.
pub fn read_message_id(reply: &Json) -> (r: Result<String, ApiError>)
    ensures
        match r {
            Ok(id) => granted(reply@) && id@ == or_text(reply@.get2_text("data"@, "message_id"@), ""@),
            Err(e) => e == ApiError::Refused && !granted(reply@),
        },
{
    if !is_granted(reply) {
        return Err(ApiError::Refused);
    }
    Ok(
        match reply.get2_str("data", "message_id") {
            Some(s) => s.to_owned(),
            None => "".to_owned(),
        },
    )
}

/// Whether a request without an answer to read was granted.
pub fn read_done(reply: &Json) -> (r: Result<(), ApiError>)
    ensures
        r == (if granted(reply@) { Ok::<(), ApiError>(()) } else { Err(ApiError::Refused) }),
{
    if is_granted(reply) {
        Ok(())
    } else {
        Err(ApiError::Refused)
    }
}

pub fn user_url(open_id: &str) -> (r: String)
    ensures
        r@ == "https://open.feishu.cn/open-apis/contact/v3/users/"@ + open_id@ + "?user_id_type=open_id"@,
{
    plus(plus("https://open.feishu.cn/open-apis/contact/v3/users/".to_owned(), open_id), "?user_id_type=open_id")
}

/// A user's name, or a stand-in where the reply holds none.
pub fn read_user_name(reply: &Json) -> (r: Result<String, ApiError>)
    ensures
        match r {
            Ok(name) => granted(reply@) && name@ == or_text(reply@.get3_text("data"@, "user"@, "name"@), "玩家"@),
            Err(e) => e == ApiError::Refused && !granted(reply@),
        },
{
    if !is_granted(reply) {
        return Err(ApiError::Refused);
    }
    Ok(
        match reply.get3_str("data", "user", "name") {
            Some(s) => s.to_owned(),
            None => "玩家".to_owned(),
        },
    )
}

pub open spec fn members_url_text(chat_id: Seq<char>, page: Option<Seq<char>>) -> Seq<char> {
    "https://open.feishu.cn/open-apis/im/v1/chats/"@ + chat_id + "/members?member_id_type=open_id&page_size=100"@ + (
    match page {
        Some(p) => "&page_token="@ + p,
        None => ""@,
    })
}

/// One page of a chat's members.
pub fn members_url(chat_id: &str, page: Option<&str>) -> (r: String)
    ensures
        r@ == members_url_text(
            chat_id@,
            match page {
                Some(p) => Some(p@),
                None => None,
            },
        ),
{
    let s = plus("https://open.feishu.cn/open-apis/im/v1/chats/".to_owned(), chat_id);
    let s = plus(s, "/members?member_id_type=open_id&page_size=100");
    match page {
        Some(p) => {
            let t = plus("&page_token=".to_owned(), p);
            plus(s, t.as_str())
        },
        None => plus(s, ""),
    }
}

/// Id and name of a member; the id is empty where there is none.
pub open spec fn member_json(item: JsonView) -> (Seq<char>, Seq<char>) {
    (or_text(item.get_text("member_id"@), ""@), or_text(item.get_text("name"@), ""@))
}

/// The members on a page who have an id.
pub open spec fn members_of(items: Seq<JsonView>) -> Seq<(Seq<char>, Seq<char>)>
    decreases items.len(),
{
    if items.len() == 0 {
        Seq::empty()
    } else {
        let rest = members_of(items.drop_last());
        let m = member_json(items.last());
        if m.0.len() > 0 { rest.push(m) } else { rest }
    }
}

pub open spec fn page_members(reply: JsonView) -> Seq<(Seq<char>, Seq<char>)> {
    match reply.get2("data"@, "items"@) {
        Some(JsonView::List(items)) => members_of(items),
        _ => Seq::empty(),
    }
}

/// The next page, if there is one.
pub open spec fn next_page(reply: JsonView) -> Option<Seq<char>> {
    if reply.get2("data"@, "has_more"@) == Some(JsonView::Bool(true)) {
        reply.get2_text("data"@, "page_token"@)
    } else {
        None
    }
}

pub open spec fn people_list(s: Seq<(String, String)>) -> Seq<(Seq<char>, Seq<char>)> {
    s.map_values(|p: (String, String)| (p.0@, p.1@))
}

/// Put the members on a page behind those that are known, and say which page
/// comes next.
pub fn read_members(known: &mut Vec<(String, String)>, reply: &Json) -> (r: Result<Option<String>, ApiError>)
    ensures
        match r {
            Ok(next) => {
                &&& granted(reply@)
                &&& people_list(final(known)@) == people_list(old(known)@) + page_members(reply@)
                &&& match next {
                    Some(p) => next_page(reply@) == Some(p@),
                    None => next_page(reply@) is None,
                }
            },
            Err(e) => e == ApiError::Refused && !granted(reply@) && final(known)@ == old(known)@,
        },
{
    if !is_granted(reply) {
        return Err(ApiError::Refused);
    }
    let ghost start = people_list(known@);
    assert(start + Seq::empty() =~= start);
    if let Some(list) = reply.get2("data", "items") {
        if let Json::List(items) = list {
            let ghost all = list_view(items@);
            assert(list@ is List);
            assert(list@->List_0 =~= all);
            let mut i: usize = 0;
            assert(all.take(0) =~= Seq::empty());
            while i < items.len()
                invariant
                    all == list_view(items@),
                    i <= items@.len() == all.len(),
                    people_list(known@) == start + members_of(all.take(i as int)),
                decreases items@.len() - i,
            {
                assert(all.take(i + 1).drop_last() =~= all.take(i as int));
                assert(all.take(i + 1).last() == items@[i as int]@);
                let item = &items[i];
                let id = match item.get_str("member_id") {
                    Some(s) => s,
                    None => "",
                };
                let name = match item.get_str("name") {
                    Some(s) => s,
                    None => "",
                };
                assert((id@, name@) == member_json(item@));
                let ghost before = people_list(known@);
                if id.unicode_len() > 0 {
                    known.push((id.to_owned(), name.to_owned()));
                    assert(people_list(known@) =~= before.push((id@, name@)));
                    assert(people_list(known@) =~= start + members_of(all.take(i + 1)));
                }
                i = i + 1;
            }
            assert(all.take(i as int) =~= all);
        }
    }
    let more = match reply.get2("data", "has_more") {
        Some(v) => match v {
            Json::Bool(b) => *b,
            _ => false,
        },
        None => false,
    };
    if !more {
        return Ok(None);
    }
    Ok(
        match reply.get2_str("data", "page_token") {
            Some(s) => Some(s.to_owned()),
            None => None,
        },
    )
}

} // verus!
