//! The cards that the bot posts for the poker table.

use vstd::prelude::*;
use vstd::string::*;
use crate::feishu::cards::{
    actions, at, at_text, button, button_json, button_row, button_row_json, card, card_json, column,
    column_json, column_set, column_set_json, form, form_json, header, header_json,
    header_with_subtitle, header_with_subtitle_json, heading_json, heading_md, heading_md_colored,
    hr, hr_json, input_field, input_field_json, is_simple_id, markdown, markdown_json, note,
    note_json, person_list, person_list_json, submit_button, submit_button_json,
    texts_view, tile_column, tile_column_json, coloured,
};
use crate::feishu::json::{append_item, list_view, no_items, one_item, two_items, Json, JsonView};
use crate::game::{ActionKind, ActionLogEntry, HandSummary, PotPayout, Stage};
use crate::game::view::{PayoutView, ShowdownView, SummaryView};
use crate::poker::hand::{category_name, category_title};
use crate::poker::{Card, DeckMode, Suit};
use crate::text::{
    append_text, decimal, decimal_text, join, joined, no_texts, plus, plus_number, same_text, texts,
};
use crate::werewolf::table::{MAX_WOLF_PLAYERS, MIN_WOLF_PLAYERS};
use crate::werewolf::WolfStage;
use super::raises::{presets_of, raise_presets};
use super::snapshot::{GameSnapshot, PlayerSnapshot, PlayerSnapshotView, SnapshotView};

verus! {

// ---------- players ----------

/// How a player is named: by a mention, or, where no user stands behind the id,
/// by the name.
pub open spec fn mention(p: PlayerSnapshotView) -> Seq<char> {
    if p.is_ai { p.name } else { at_text(p.open_id) }
}

fn mention_text(p: &PlayerSnapshot) -> (r: String)
    ensures
        r@ == mention(p@),
{
    if p.is_ai {
        p.name.clone()
    } else {
        at(p.open_id.as_str())
    }
}

/// The place of the player with this id.
pub open spec fn place_of(players: Seq<PlayerSnapshotView>, open_id: Seq<char>, from: int) -> Option<int>
    decreases players.len() - from,
{
    if from >= players.len() {
        None
    } else if players[from].open_id == open_id {
        Some(from)
    } else {
        place_of(players, open_id, from + 1)
    }
}

/// How the player with this id is named.
pub open spec fn mention_id(players: Seq<PlayerSnapshotView>, open_id: Seq<char>) -> Seq<char> {
    match place_of(players, open_id, 0) {
        Some(i) => mention(players[i]),
        None => at_text(open_id),
    }
}

fn mention_id_text(snap: &GameSnapshot, open_id: &str) -> (r: String)
    ensures
        r@ == mention_id(snap@.players, open_id@),
{
    let mut i: usize = 0;
    while i < snap.players.len()
        invariant
            i <= snap.players@.len() == snap@.players.len(),
            place_of(snap@.players, open_id@, 0) == place_of(snap@.players, open_id@, i as int),
        decreases snap.players@.len() - i,
    {
        assert(snap@.players[i as int] == snap.players@[i as int]@);
        if same_text(snap.players[i].open_id.as_str(), open_id) {
            return mention_text(&snap.players[i]);
        }
        i = i + 1;
    }
    at(open_id)
}

// ---------- playing cards ----------

pub open spec fn card_tile_json(c: Card) -> JsonView {
    let label = "**"@ + c.rank.name() + c.suit.glyph() + "**"@;
    match c.suit {
        Suit::Hearts | Suit::Diamonds => tile_column_json(seq![heading_json(coloured(label, "white"@))], 1, "red"@),
        _ => tile_column_json(seq![heading_json(label)], 1, "grey"@),
    }
}

/// Visual representation of one playing card as a coloured tile. ♥/♦ get a red
/// background with white text; ♠/♣ get grey background with the default
/// near-black text — both readable, clearly suit-coded.
pub fn card_tile(c: Card) -> (r: Json)
    ensures
        r@ == card_tile_json(c),
{
    let s = plus("**".to_owned(), c.rank.label().as_str());
    let s = plus(s, c.suit.symbol());
    let label = plus(s, "**");
    match c.suit {
        Suit::Hearts | Suit::Diamonds => tile_column(
            one_item(heading_md_colored(label.as_str(), "white")),
            1,
            "red",
        ),
        _ => tile_column(one_item(heading_md(label.as_str())), 1, "grey"),
    }
}

pub open spec fn cards_row_json(cards: Seq<Card>) -> JsonView {
    if cards.len() == 0 {
        markdown_json("—"@)
    } else {
        column_set_json(Seq::new(cards.len(), |i: int| card_tile_json(cards[i])))
    }
}

/// Lay out a row of card tiles. Returns a markdown placeholder for the empty case.
pub fn cards_row(cards: &[Card]) -> (r: Json)
    ensures
        r@ == cards_row_json(cards@),
{
    if cards.len() == 0 {
        return markdown("—");
    }
    let mut cols = no_items();
    let mut i: usize = 0;
    while i < cards.len()
        invariant
            i <= cards@.len(),
            list_view(cols@) =~= Seq::new(i as nat, |k: int| card_tile_json(cards@[k])),
        decreases cards@.len() - i,
    {
        append_item(&mut cols, card_tile(cards[i]));
        i = i + 1;
    }
    assert(list_view(cols@) =~= Seq::new(cards@.len(), |i: int| card_tile_json(cards@[i])));
    column_set(cols)
}

// ---------- short replies ----------

pub open spec fn toast_json(msg: Seq<char>) -> JsonView {
    JsonView::object().with(
        "toast"@,
        JsonView::object().with_text("type"@, "warning"@).with_text("content"@, msg),
    )
}

/// Toast-only response for the card endpoint.
pub fn toast(msg: &str) -> (r: Json)
    ensures
        r@ == toast_json(msg@),
{
    Json::object().with("toast", Json::object().with_text("type", "warning").with_text("content", msg))
}

pub open spec fn error_card_json(title: Seq<char>, message: Seq<char>) -> JsonView {
    card_json(header_json(title, "red"@), seq![markdown_json(message)])
}

/// Error feedback for the user whose request was refused.
pub fn build_error_card(title: &str, message: &str) -> (r: Json)
    ensures
        r@ == error_card_json(title@, message@),
{
    card(header(title, "red"), one_item(markdown(message)))
}

pub open spec fn help_card_json() -> JsonView {
    card_json(
        header_json("德州扑克 帮助"@, "blue"@),
        seq![
            markdown_json(
                "**操作方式**：通过卡片按钮，或在群里 @机器人 + 关键词\n\n• `join` 加入下一局\n• `leave` 离开\n• `start` 开局 (≥2 名玩家)\n• `state` 当前状态\n• `chips` 各玩家筹码\n• `reset` 重置牌桌\n\n游戏内行动均为卡片按钮：弃牌 / 跟注 / 加注 / 全押。"@,
            ),
            note_json("初始筹码 1000 · 小盲 5 / 大盲 10 · 手牌以**仅本人可见**的群消息发出"@),
        ],
    )
}

/// The help for the poker table.
pub fn build_help_card() -> (r: Json)
    ensures
        r@ == help_card_json(),
{
    card(
        header("德州扑克 帮助", "blue"),
        two_items(
            markdown(
                "**操作方式**：通过卡片按钮，或在群里 @机器人 + 关键词\n\n• `join` 加入下一局\n• `leave` 离开\n• `start` 开局 (≥2 名玩家)\n• `state` 当前状态\n• `chips` 各玩家筹码\n• `reset` 重置牌桌\n\n游戏内行动均为卡片按钮：弃牌 / 跟注 / 加注 / 全押。",
            ),
            note("初始筹码 1000 · 小盲 5 / 大盲 10 · 手牌以**仅本人可见**的群消息发出"),
        ),
    )
}

pub open spec fn reset_card_json() -> JsonView {
    card_json(
        header_json("♻️ 牌桌已重置"@, "wathet"@),
        seq![markdown_json("点击下方大厅卡片的 **加入** 按钮重新开始。"@)],
    )
}

/// Told to the chat after a reset.
pub fn build_reset_card() -> (r: Json)
    ensures
        r@ == reset_card_json(),
{
    card(
        header("♻️ 牌桌已重置", "wathet"),
        one_item(markdown("点击下方大厅卡片的 **加入** 按钮重新开始。")),
    )
}

pub open spec fn hole_card_json(hand_count: int, hole: Seq<Card>) -> JsonView {
    card_json(
        header_with_subtitle_json("🂠 你的手牌"@, "第 "@ + decimal(hand_count as nat) + " 局"@, "purple"@),
        seq![cards_row_json(hole), note_json("仅你可见 · 群里其他人看不到"@)],
    )
}

/// A player's hole cards, for that player's eyes only.
pub fn build_hole_card(hand_count: u32, hole: &[Card]) -> (r: Json)
    ensures
        r@ == hole_card_json(hand_count as int, hole@),
{
    let subtitle = plus(plus_number("第 ".to_owned(), hand_count as u64), " 局");
    card(
        header_with_subtitle("🂠 你的手牌", subtitle.as_str(), "purple"),
        two_items(cards_row(hole), note("仅你可见 · 群里其他人看不到")),
    )
}

pub open spec fn welcome_elements(chat_id: Seq<char>, name: Seq<char>) -> Seq<JsonView> {
    let value = JsonView::object().with_text("action"@, "join_lobby"@).with_text("chat_id"@, chat_id);
    seq![
        markdown_json(
            "👋 **"@ + name + "**，要不要加入下一局？\n\n初始 1000 筹码 · 小盲 5 / 大盲 10 · 手牌仅本人可见"@,
        ),
        button_row_json(seq![button_json("加入下一局"@, value, "primary_filled"@)]),
        note_json("这条消息仅你可见，不想玩可以直接忽略。"@),
    ]
}

/// One-shot welcome shown only to a user who just joined the group. The button
/// reuses the same `join_lobby` action as the persistent lobby card.
pub fn build_welcome_card(chat_id: &str, name: &str) -> (r: Json)
    ensures
        r@ == card_json(
            header_with_subtitle_json("🎰 欢迎来到牌桌"@, "群里在玩德州扑克"@, "turquoise"@),
            welcome_elements(chat_id@, name@),
        ),
{
    let value = Json::object().with_text("action", "join_lobby").with_text("chat_id", chat_id);
    let text = plus(
        plus("👋 **".to_owned(), name),
        "**，要不要加入下一局？\n\n初始 1000 筹码 · 小盲 5 / 大盲 10 · 手牌仅本人可见",
    );
    let mut elements = one_item(markdown(text.as_str()));
    append_item(&mut elements, button_row(one_item(button("加入下一局", value, "primary_filled"))));
    append_item(&mut elements, note("这条消息仅你可见，不想玩可以直接忽略。"));
    assert(list_view(elements@) =~= welcome_elements(chat_id@, name@));
    card(header_with_subtitle("🎰 欢迎来到牌桌", "群里在玩德州扑克", "turquoise"), elements)
}

// ---------- lobby ----------

pub open spec fn lobby_in_progress(stage: Stage) -> bool {
    stage.betting() || stage is Showdown
}

/// The stage of the werewolf game, while one is played.
pub open spec fn wolf_in_play(wolf: Option<WolfStage>) -> Option<WolfStage> {
    match wolf {
        Some(s) => if s is Lobby || s is Ended { None } else { Some(s) },
        None => None,
    }
}

pub open spec fn lobby_subtitle(snap: SnapshotView, wolf: Option<WolfStage>) -> Seq<char> {
    match wolf_in_play(wolf) {
        Some(s) => "狼人杀 · "@ + s.title(),
        None => if lobby_in_progress(snap.stage) {
            "第 "@ + decimal(snap.hand_count as nat) + " 局 · "@ + snap.stage.title() + " · 底池 "@ + decimal(
                snap.pot as nat,
            )
        } else if snap.hand_count == 0 {
            "已就座 "@ + decimal(snap.players.len()) + " 人 · 等待开局"@
        } else {
            "已就座 "@ + decimal(snap.players.len()) + " 人 · 已进行 "@ + decimal(snap.hand_count as nat) + " 局"@
        },
    }
}

fn find_wolf_in_play(wolf: Option<WolfStage>) -> (r: Option<WolfStage>)
    ensures
        r == wolf_in_play(wolf),
{
    match wolf {
        Some(WolfStage::Lobby) | Some(WolfStage::Ended) | None => None,
        Some(s) => Some(s),
    }
}

fn lobby_subtitle_text(snap: &GameSnapshot, wolf: Option<WolfStage>) -> (r: String)
    ensures
        r@ == lobby_subtitle(snap@, wolf),
{
    if let Some(s) = find_wolf_in_play(wolf) {
        return plus("狼人杀 · ".to_owned(), s.label());
    }
    if snap.stage.is_betting() || snap.stage == Stage::Showdown {
        let s = plus_number("第 ".to_owned(), snap.hand_count as u64);
        let s = plus(plus(s, " 局 · "), snap.stage.label());
        plus_number(plus(s, " · 底池 "), snap.pot)
    } else {
        let s = plus_number("已就座 ".to_owned(), snap.players.len() as u64);
        if snap.hand_count == 0 {
            plus(s, " 人 · 等待开局")
        } else {
            plus(plus_number(plus(s, " 人 · 已进行 "), snap.hand_count as u64), " 局")
        }
    }
}

pub open spec fn lobby_line(snap: SnapshotView, i: int) -> Seq<char> {
    let p = snap.players[i];
    let dealer = if i == snap.dealer_idx && snap.hand_count > 0 { " 🅓"@ } else { ""@ };
    let status = if p.sat_out {
        " 💤"@
    } else if p.folded {
        " ✗"@
    } else if p.all_in {
        " ★"@
    } else {
        ""@
    };
    "• "@ + mention(p) + dealer + status + " — "@ + decimal(p.chips as nat) + " 筹码"@
}

fn lobby_line_text(snap: &GameSnapshot, i: usize) -> (r: String)
    requires
        i < snap.players@.len(),
    ensures
        r@ == lobby_line(snap@, i as int),
{
    let p = &snap.players[i];
    assert(snap@.players[i as int] == p@);
    let dealer = if i == snap.dealer_idx && snap.hand_count > 0 { " 🅓" } else { "" };
    let status = if p.sat_out {
        " 💤"
    } else if p.folded {
        " ✗"
    } else if p.all_in {
        " ★"
    } else {
        ""
    };
    let s = plus("• ".to_owned(), mention_text(p).as_str());
    let s = plus(plus(plus(s, dealer), status), " — ");
    plus(plus_number(s, p.chips), " 筹码")
}

/// The ids of the players who do not sit out.
pub open spec fn active_ids(players: Seq<PlayerSnapshotView>) -> Seq<Seq<char>>
    decreases players.len(),
{
    if players.len() == 0 {
        Seq::empty()
    } else if players.last().sat_out {
        active_ids(players.drop_last())
    } else {
        active_ids(players.drop_last()).push(players.last().open_id)
    }
}

/// How many players have chips.
pub open spec fn chip_holders(players: Seq<PlayerSnapshotView>) -> nat
    decreases players.len(),
{
    if players.len() == 0 {
        0
    } else {
        chip_holders(players.drop_last()) + if players.last().chips > 0 { 1nat } else { 0nat }
    }
}

/// A button of the lobby card that sends `action`.
pub open spec fn lobby_button(chat_id: Seq<char>, text: Seq<char>, action: Seq<char>, style: Seq<char>) -> JsonView {
    button_json(
        text,
        JsonView::object().with_text("chat_id"@, chat_id).merged(JsonView::object().with_text("action"@, action)),
        style,
    )
}

fn build_lobby_button(chat_id: &str, text: &str, action: &str, style: &str) -> (r: Json)
    ensures
        r@ == lobby_button(chat_id@, text@, action@, style@),
{
    let base = Json::object().with_text("chat_id", chat_id);
    button(text, base.merged(&Json::object().with_text("action", action)), style)
}

/// The buttons of the lobby: taking and giving up seats, AI seats where there is
/// a model, and the games that the table is large enough for.
pub open spec fn lobby_buttons(snap: SnapshotView, ai: bool) -> Seq<JsonView> {
    let chat_id = snap.chat_id;
    let join = seq![lobby_button(chat_id, "加入"@, "join_lobby"@, "primary"@)];
    let seats = if ai {
        join.push(lobby_button(chat_id, "加入 AI"@, "add_ai_lobby"@, "default"@)).push(
            lobby_button(chat_id, "移除 AI"@, "remove_ai_lobby"@, "default"@),
        )
    } else {
        join
    };
    let leave = if snap.players.len() > 0 {
        seats.push(lobby_button(chat_id, "离开"@, "leave_lobby"@, "default"@)).push(
            lobby_button(chat_id, "重置"@, "reset_lobby"@, "default"@),
        )
    } else {
        seats
    };
    let poker = if chip_holders(snap.players) >= 2 {
        leave.push(lobby_button(chat_id, "🎰 开始德州"@, "start_lobby"@, "primary"@)).push(
            lobby_button(chat_id, "🎰 短牌德州"@, "start_short_lobby"@, "primary"@),
        )
    } else {
        leave
    };
    if MIN_WOLF_PLAYERS <= snap.players.len() <= MAX_WOLF_PLAYERS {
        poker.push(lobby_button(chat_id, "🐺 开始狼人杀"@, "start_wolf_lobby"@, "primary"@))
    } else {
        poker
    }
}

fn build_lobby_buttons(snap: &GameSnapshot, ai: bool) -> (r: Vec<Json>)
    ensures
        list_view(r@) == lobby_buttons(snap@, ai),
{
    let chat_id = snap.chat_id.as_str();
    let mut buttons = one_item(build_lobby_button(chat_id, "加入", "join_lobby", "primary"));
    if ai {
        append_item(&mut buttons, build_lobby_button(chat_id, "加入 AI", "add_ai_lobby", "default"));
        append_item(&mut buttons, build_lobby_button(chat_id, "移除 AI", "remove_ai_lobby", "default"));
    }
    if snap.players.len() > 0 {
        append_item(&mut buttons, build_lobby_button(chat_id, "离开", "leave_lobby", "default"));
        append_item(&mut buttons, build_lobby_button(chat_id, "重置", "reset_lobby", "default"));
    }
    if count_chip_holders(snap) >= 2 {
        append_item(&mut buttons, build_lobby_button(chat_id, "🎰 开始德州", "start_lobby", "primary"));
        append_item(&mut buttons, build_lobby_button(chat_id, "🎰 短牌德州", "start_short_lobby", "primary"));
    }
    assert(snap@.players.len() == snap.players@.len());
    if MIN_WOLF_PLAYERS <= snap.players.len() && snap.players.len() <= MAX_WOLF_PLAYERS {
        append_item(&mut buttons, build_lobby_button(chat_id, "🐺 开始狼人杀", "start_wolf_lobby", "primary"));
    }
    assert(list_view(buttons@) =~= lobby_buttons(snap@, ai));
    buttons
}

/// Who sits at the table.
pub open spec fn lobby_roster(snap: SnapshotView) -> Seq<JsonView> {
    if snap.players.len() == 0 {
        seq![markdown_json("🪑 牌桌空空如也，点击下方 **加入** 就座。"@)]
    } else {
        let avatars = if active_ids(snap.players).len() > 0 {
            seq![person_list_json(active_ids(snap.players))]
        } else {
            Seq::empty()
        };
        avatars.push(markdown_json(joined(Seq::new(snap.players.len(), |i: int| lobby_line(snap, i)), "\n"@)))
    }
}

pub open spec fn lobby_elements(snap: SnapshotView, ai: bool, wolf: Option<WolfStage>) -> Seq<JsonView> {
    if wolf_in_play(wolf) is Some {
        lobby_roster(snap).push(note_json("狼人杀进行中，结束后可点按钮加入下一局。"@))
    } else if lobby_in_progress(snap.stage) {
        lobby_roster(snap).push(note_json("牌局进行中，结束后可点按钮加入下一局。"@))
    } else {
        lobby_roster(snap).push(button_row_json(lobby_buttons(snap, ai))).push(
            note_json("初始 1000 筹码 · 小盲 5 / 大盲 10 · 手牌仅本人可见"@),
        )
    }
}

pub open spec fn lobby_card_json(snap: SnapshotView, ai: bool, wolf: Option<WolfStage>) -> JsonView {
    let busy = lobby_in_progress(snap.stage) || wolf_in_play(wolf) is Some;
    card_json(
        header_with_subtitle_json(
            "🎰 德州扑克 · 大厅"@,
            lobby_subtitle(snap, wolf),
            if busy { "wathet"@ } else { "turquoise"@ },
        ),
        lobby_elements(snap, ai, wolf),
    )
}

fn build_lobby_roster(snap: &GameSnapshot) -> (r: Vec<Json>)
    ensures
        list_view(r@) == lobby_roster(snap@),
{
    let mut elements = no_items();
    if snap.players.len() == 0 {
        append_item(&mut elements, markdown("🪑 牌桌空空如也，点击下方 **加入** 就座。"));
        return elements;
    }
    let ghost all = snap@.players;
    let mut ids: Vec<String> = Vec::new();
    let mut lines: Vec<String> = Vec::new();
    let mut i: usize = 0;
    while i < snap.players.len()
        invariant
            i <= snap.players@.len(),
            all == snap@.players,
            all.len() == snap.players@.len(),
            texts_view(ids@) =~= active_ids(all.take(i as int)),
            texts(lines@) =~= Seq::new(i as nat, |k: int| lobby_line(snap@, k)),
        decreases snap.players@.len() - i,
    {
        assert(all.take(i + 1).drop_last() =~= all.take(i as int));
        assert(all.take(i + 1).last() == snap.players@[i as int]@);
        if !snap.players[i].sat_out {
            ids.push(snap.players[i].open_id.clone());
        }
        append_text(&mut lines, lobby_line_text(snap, i));
        i = i + 1;
    }
    assert(all.take(snap.players@.len() as int) =~= all);
    // Avatar row for joined players.
    if ids.len() > 0 {
        append_item(&mut elements, person_list(ids.as_slice()));
    }
    // Detailed lines (chips + status markers) below the avatars.
    assert(texts(lines@) =~= Seq::new(all.len(), |i: int| lobby_line(snap@, i)));
    append_item(&mut elements, markdown(join(&lines, "\n").as_str()));
    assert(list_view(elements@) =~= lobby_roster(snap@));
    elements
}

fn count_chip_holders(snap: &GameSnapshot) -> (r: usize)
    ensures
        r == chip_holders(snap@.players),
{
    let ghost all = snap@.players;
    let mut n: usize = 0;
    let mut i: usize = 0;
    while i < snap.players.len()
        invariant
            i <= snap.players@.len(),
            all == snap@.players,
            all.len() == snap.players@.len(),
            n <= i,
            n == chip_holders(all.take(i as int)),
        decreases snap.players@.len() - i,
    {
        assert(all.take(i + 1).drop_last() =~= all.take(i as int));
        assert(all.take(i + 1).last() == snap.players@[i as int]@);
        if snap.players[i].chips > 0 {
            n = n + 1;
        }
        i = i + 1;
    }
    assert(all.take(snap.players@.len() as int) =~= all);
    n
}

/// The persistent "lobby" card: a single message in the chat that's updated in
/// place as players join/leave, and that flips to a "in-progress" view (with no
/// buttons) while either game is played. `ai` says whether AI seats can be had;
/// `wolf` is the stage of the chat's werewolf game.
pub fn build_lobby_card(snap: &GameSnapshot, ai: bool, wolf: Option<WolfStage>) -> (r: Json)
    ensures
        r@ == lobby_card_json(snap@, ai, wolf),
{
    let in_progress = snap.stage.is_betting() || snap.stage == Stage::Showdown;
    let wolf_runs = find_wolf_in_play(wolf).is_some();
    let subtitle = lobby_subtitle_text(snap, wolf);
    let mut elements = build_lobby_roster(snap);
    if wolf_runs {
        append_item(&mut elements, note("狼人杀进行中，结束后可点按钮加入下一局。"));
    } else if in_progress {
        append_item(&mut elements, note("牌局进行中，结束后可点按钮加入下一局。"));
    } else {
        append_item(&mut elements, actions(build_lobby_buttons(snap, ai)));
        append_item(&mut elements, note("初始 1000 筹码 · 小盲 5 / 大盲 10 · 手牌仅本人可见"));
    }
    let template = if in_progress || wolf_runs { "wathet" } else { "turquoise" };
    card(header_with_subtitle("🎰 德州扑克 · 大厅", subtitle.as_str(), template), elements)
}

// ---------- the actor's card ----------

pub open spec fn to_call(snap: SnapshotView, i: int) -> int {
    if snap.current_bet > snap.players[i].bet_in_round {
        snap.current_bet - snap.players[i].bet_in_round
    } else {
        0
    }
}

/// What every action button of seat `i` sends, besides its action.
pub open spec fn action_base(snap: SnapshotView, i: int) -> JsonView {
    JsonView::object()
        .with_text("chat_id"@, snap.chat_id)
        .with("hand"@, JsonView::Int(snap.hand_count))
        .with_text("actor"@, snap.players[i].open_id)
}

fn build_action_base(snap: &GameSnapshot, i: usize) -> (r: Json)
    requires
        i < snap.players@.len(),
    ensures
        r@ == action_base(snap@, i as int),
{
    assert(snap@.players[i as int] == snap.players@[i as int]@);
    Json::object()
        .with_text("chat_id", snap.chat_id.as_str())
        .with("hand", Json::number(snap.hand_count as u64))
        .with_text("actor", snap.players[i].open_id.as_str())
}

pub open spec fn action_button(snap: SnapshotView, i: int, text: Seq<char>, action: Seq<char>, style: Seq<char>) -> JsonView {
    button_json(text, action_base(snap, i).merged(JsonView::object().with_text("action"@, action)), style)
}

fn build_action_button(snap: &GameSnapshot, i: usize, text: &str, action: &str, style: &str) -> (r: Json)
    requires
        i < snap.players@.len(),
    ensures
        r@ == action_button(snap@, i as int, text@, action@, style@),
{
    let base = build_action_base(snap, i);
    button(text, base.merged(&Json::object().with_text("action", action)), style)
}

/// The most that seat `i` can raise to.
pub open spec fn max_to(snap: SnapshotView, i: int) -> int {
    snap.players[i].chips + snap.players[i].bet_in_round
}

/// The least that can be raised to.
pub open spec fn min_raise_to(snap: SnapshotView) -> int {
    if snap.current_bet + snap.min_raise > snap.big_blind {
        snap.current_bet + snap.min_raise
    } else {
        snap.big_blind
    }
}

/// Whether the numbers on the action card fit into 64 bits.
pub open spec fn amounts_fit(snap: SnapshotView) -> bool {
    &&& snap.current_bet + snap.min_raise <= u64::MAX
    &&& snap.current_bet + (if snap.pot >= 1 { snap.pot } else { 1 }) <= u64::MAX
    &&& forall|i: int| 0 <= i < snap.players.len() ==> (#[trigger] snap.players[i]).chips + snap.players[i].bet_in_round <= u64::MAX
}

impl GameSnapshot {
    /// Whether the numbers on the action card fit into 64 bits.
    pub fn amounts_fit(&self) -> (r: bool)
        ensures
            r == amounts_fit(self@),
    {
        let pot: u64 = if self.pot >= 1 { self.pot } else { 1 };
        if self.current_bet.checked_add(self.min_raise).is_none() || self.current_bet.checked_add(pot).is_none() {
            return false;
        }
        let mut i: usize = 0;
        while i < self.players.len()
            invariant
                i <= self.players@.len(),
                self@.players.len() == self.players@.len(),
                forall|k: int| 0 <= k < i ==> (#[trigger] self@.players[k]).chips + self@.players[k].bet_in_round <= u64::MAX,
            decreases self.players@.len() - i,
        {
            assert(self@.players[i as int] == self.players@[i as int]@);
            if self.players[i].chips.checked_add(self.players[i].bet_in_round).is_none() {
                return false;
            }
            i = i + 1;
        }
        true
    }
}

pub open spec fn quick_actions(snap: SnapshotView, i: int) -> Seq<JsonView> {
    let p = snap.players[i];
    let call = to_call(snap, i);
    let all_in = "全押 "@ + decimal(max_to(snap, i) as nat);
    let fold = seq![action_button(snap, i, "弃牌"@, "fold"@, "danger_text"@)];
    if call == 0 {
        let check = fold.push(action_button(snap, i, "过牌"@, "check"@, "primary_filled"@));
        if p.chips > 0 {
            check.push(action_button(snap, i, all_in, "allin"@, "default"@))
        } else {
            check
        }
    } else if p.chips <= call {
        fold.push(action_button(snap, i, all_in, "allin"@, "primary_filled"@))
    } else {
        fold.push(action_button(snap, i, "跟注 "@ + decimal(call as nat), "call"@, "primary_filled"@)).push(
            action_button(snap, i, all_in, "allin"@, "default"@),
        )
    }
}

/// Fold + (Check / Call) + All-in. The form-input below handles custom raises.
///
/// Visual hierarchy:
/// - Fold uses `danger_text` — red text, no border, low visual weight.
/// - Check/Call uses `primary_filled` — solid blue, the prominent main action.
/// - All-in uses `default` — grey outline, secondary.
pub fn quick_action_buttons(snap: &GameSnapshot, idx: usize) -> (r: Vec<Json>)
    requires
        idx < snap.players@.len(),
        snap.players@[idx as int].chips + snap.players@[idx as int].bet_in_round <= u64::MAX,
    ensures
        list_view(r@) == quick_actions(snap@, idx as int),
{
    assert(snap@.players[idx as int] == snap.players@[idx as int]@);
    let p = &snap.players[idx];
    let call: u64 = snap.current_bet.saturating_sub(p.bet_in_round);
    let all_in = plus_number("全押 ".to_owned(), p.chips + p.bet_in_round);
    let mut buttons = one_item(build_action_button(snap, idx, "弃牌", "fold", "danger_text"));
    if call == 0 {
        append_item(&mut buttons, build_action_button(snap, idx, "过牌", "check", "primary_filled"));
    } else if p.chips <= call {
        // Forced all-in (calling would put them all-in or short)
        append_item(&mut buttons, build_action_button(snap, idx, all_in.as_str(), "allin", "primary_filled"));
        assert(list_view(buttons@) =~= quick_actions(snap@, idx as int));
        return buttons;
    } else {
        let text = plus_number("跟注 ".to_owned(), call);
        append_item(&mut buttons, build_action_button(snap, idx, text.as_str(), "call", "primary_filled"));
    }
    if p.chips > call {
        append_item(&mut buttons, build_action_button(snap, idx, all_in.as_str(), "allin", "default"));
    }
    assert(list_view(buttons@) =~= quick_actions(snap@, idx as int));
    buttons
}

pub open spec fn raise_form_json(snap: SnapshotView, i: int, id: Seq<char>) -> JsonView {
    let least = decimal(min_raise_to(snap) as nat);
    let value = action_base(snap, i).with_text("action"@, "raise_custom"@);
    form_json(
        "raise_form"@,
        seq![
            column_set_json(
                seq![
                    column_json(
                        seq![input_field_json("raise_to"@, least + "-"@ + decimal(max_to(snap, i) as nat), least, "加注到"@)],
                        3,
                    ),
                    column_json(seq![submit_button_json(id, "确认加注"@, value, "primary_filled"@)], 1),
                ],
            ),
        ],
    )
}

fn least_raise(snap: &GameSnapshot) -> (r: u64)
    requires
        snap.current_bet + snap.min_raise <= u64::MAX,
    ensures
        r == min_raise_to(snap@),
{
    if snap.current_bet + snap.min_raise > snap.big_blind {
        snap.current_bet + snap.min_raise
    } else {
        snap.big_blind
    }
}

/// Form container with an amount input and a submit button on the same row.
/// Submitting the form triggers a callback whose
/// `event.action.form_value.raise_to` carries the typed amount. The submit
/// button is `submit`.
fn raise_form_with(snap: &GameSnapshot, idx: usize, submit: Json) -> (r: Json)
    requires
        idx < snap.players@.len(),
        snap.current_bet + snap.min_raise <= u64::MAX,
        snap.players@[idx as int].chips + snap.players@[idx as int].bet_in_round <= u64::MAX,
    ensures
        forall|id: Seq<char>|
            submit@ == #[trigger] submit_button_json(
                id,
                "确认加注"@,
                action_base(snap@, idx as int).with_text("action"@, "raise_custom"@),
                "primary_filled"@,
            ) ==> r@ == raise_form_json(snap@, idx as int, id),
{
    assert(snap@.players[idx as int] == snap.players@[idx as int]@);
    let p = &snap.players[idx];
    let least = least_raise(snap);
    let least_text = decimal_text(least);
    let range = plus_number(plus(decimal_text(least), "-"), p.chips + p.bet_in_round);
    let input = input_field("raise_to", range.as_str(), least_text.as_str(), "加注到");
    form(
        "raise_form",
        one_item(column_set(two_items(column(one_item(input), 3), column(one_item(submit), 1)))),
    )
}

/// The form for a raise of the player's own choosing.
pub fn raise_form_block(snap: &GameSnapshot, idx: usize) -> (r: Json)
    requires
        idx < snap.players@.len(),
        snap.current_bet + snap.min_raise <= u64::MAX,
        snap.players@[idx as int].chips + snap.players@[idx as int].bet_in_round <= u64::MAX,
    ensures
        exists|id: Seq<char>| is_simple_id(id) && r@ == #[trigger] raise_form_json(snap@, idx as int, id),
{
    let value = build_action_base(snap, idx).with_text("action", "raise_custom");
    let submit = submit_button("确认加注", value, "primary_filled");
    raise_form_with(snap, idx, submit)
}

/// The button that raises to `to`.
pub open spec fn preset_button(snap: SnapshotView, i: int, to: int) -> JsonView {
    let text = if to >= max_to(snap, i) {
        "全押 "@ + decimal(max_to(snap, i) as nat)
    } else if to == min_raise_to(snap) {
        "最小 "@ + decimal(to as nat)
    } else {
        "加到 "@ + decimal(to as nat)
    };
    let value = if to >= max_to(snap, i) {
        JsonView::object().with_text("action"@, "allin"@)
    } else {
        JsonView::object().with_text("action"@, "raise"@).with("to"@, JsonView::Int(to))
    };
    button_json(text, action_base(snap, i).merged(value), "default"@)
}

/// Up to three quick raises.
pub open spec fn preset_buttons(snap: SnapshotView, i: int) -> Seq<JsonView> {
    let all = presets_of(snap.current_bet, min_raise_to(snap), snap.pot, max_to(snap, i));
    let n = if all.len() < 3 { all.len() } else { 3 };
    Seq::new(n, |k: int| preset_button(snap, i, all[k] as int))
}

/// Up to three quick raise presets.
pub fn raise_preset_buttons(snap: &GameSnapshot, idx: usize) -> (r: Vec<Json>)
    requires
        idx < snap.players@.len(),
        amounts_fit(snap@),
    ensures
        list_view(r@) == preset_buttons(snap@, idx as int),
{
    assert(snap@.players[idx as int] == snap.players@[idx as int]@);
    assert(snap@.players[idx as int].chips + snap@.players[idx as int].bet_in_round <= u64::MAX);
    let p = &snap.players[idx];
    let most: u64 = p.chips + p.bet_in_round;
    let least = least_raise(snap);
    let presets = raise_presets(snap.current_bet, least, snap.pot, most);
    let n: usize = if presets.len() < 3 { presets.len() } else { 3 };
    let mut out = no_items();
    let mut k: usize = 0;
    while k < n
        invariant
            k <= n <= presets@.len(),
            n <= 3,
            idx < snap.players@.len(),
            most == max_to(snap@, idx as int),
            least == min_raise_to(snap@),
            list_view(out@) =~= Seq::new(k as nat, |j: int| preset_button(snap@, idx as int, presets@[j] as int)),
        decreases n - k,
    {
        let to = presets[k];
        let base = build_action_base(snap, idx);
        let b = if to >= most {
            let text = plus_number("全押 ".to_owned(), most);
            button(text.as_str(), base.merged(&Json::object().with_text("action", "allin")), "default")
        } else {
            let text = if to == least {
                plus_number("最小 ".to_owned(), to)
            } else {
                plus_number("加到 ".to_owned(), to)
            };
            let value = Json::object().with_text("action", "raise").with("to", Json::number(to));
            button(text.as_str(), base.merged(&value), "default")
        };
        append_item(&mut out, b);
        k = k + 1;
    }
    assert(list_view(out@) =~= preset_buttons(snap@, idx as int));
    out
}

// ---------- the state card ----------

pub open spec fn state_line(snap: SnapshotView, i: int) -> Seq<char> {
    let p = snap.players[i];
    let marker = if Some(p.open_id) == snap.current_open_id {
        "▶"@
    } else if p.folded {
        "✗"@
    } else if p.all_in {
        "★"@
    } else if p.sat_out {
        "💤"@
    } else {
        "•"@
    };
    let dealer = if i == snap.dealer_idx { " 🅓"@ } else { ""@ };
    marker + " "@ + mention(p) + dealer + " — "@ + decimal(p.chips as nat) + " 筹码 (本轮 "@ + decimal(
        p.bet_in_round as nat,
    ) + ")"@
}

fn is_actor(snap: &GameSnapshot, open_id: &str) -> (r: bool)
    ensures
        r == (snap@.current_open_id == Some(open_id@)),
{
    match &snap.current_open_id {
        Some(id) => same_text(id.as_str(), open_id),
        None => false,
    }
}

fn state_line_text(snap: &GameSnapshot, i: usize) -> (r: String)
    requires
        i < snap.players@.len(),
    ensures
        r@ == state_line(snap@, i as int),
{
    let p = &snap.players[i];
    assert(snap@.players[i as int] == p@);
    let marker = if is_actor(snap, p.open_id.as_str()) {
        "▶"
    } else if p.folded {
        "✗"
    } else if p.all_in {
        "★"
    } else if p.sat_out {
        "💤"
    } else {
        "•"
    };
    let dealer = if i == snap.dealer_idx { " 🅓" } else { "" };
    let s = plus(plus(marker.to_owned(), " "), mention_text(p).as_str());
    let s = plus(plus(s, dealer), " — ");
    let s = plus(plus_number(s, p.chips), " 筹码 (本轮 ");
    plus(plus_number(s, p.bet_in_round), ")")
}

/// The seat of the actor, or the first.
pub open spec fn actor_seat(players: Seq<PlayerSnapshotView>, open_id: Seq<char>, from: int) -> int
    decreases players.len() - from,
{
    if from >= players.len() {
        0
    } else if players[from].open_id == open_id {
        from
    } else {
        actor_seat(players, open_id, from + 1)
    }
}

fn find_actor(snap: &GameSnapshot, open_id: &str) -> (r: usize)
    ensures
        r == actor_seat(snap@.players, open_id@, 0),
        snap.players@.len() > 0 ==> r < snap.players@.len(),
{
    let mut i: usize = 0;
    while i < snap.players.len()
        invariant
            i <= snap.players@.len(),
            snap@.players.len() == snap.players@.len(),
            actor_seat(snap@.players, open_id@, 0) == actor_seat(snap@.players, open_id@, i as int),
        decreases snap.players@.len() - i,
    {
        assert(snap@.players[i as int] == snap.players@[i as int]@);
        if same_text(snap.players[i].open_id.as_str(), open_id) {
            return i;
        }
        i = i + 1;
    }
    0
}

/// The board and the players.
pub open spec fn state_head(snap: SnapshotView) -> Seq<JsonView> {
    let board = if snap.community.len() > 0 {
        seq![markdown_json("**公共牌**"@), cards_row_json(snap.community)]
    } else {
        Seq::empty()
    };
    board.push(markdown_json(joined(Seq::new(snap.players.len(), |i: int| state_line(snap, i)), "\n"@)))
}

/// What the actor sees below: own cards, what there is to call, and the
/// buttons. The submit button's name ends in `id`.
pub open spec fn actor_part(snap: SnapshotView, i: int, id: Seq<char>) -> Seq<JsonView> {
    let p = snap.players[i];
    let call = to_call(snap, i);
    let own = if snap.viewer_hole.len() > 0 {
        seq![hr_json(), markdown_json("**你的手牌**"@), cards_row_json(snap.viewer_hole)]
    } else {
        seq![hr_json()]
    };
    let turn = own.push(
        markdown_json(
            "🎯 **你的回合** · 剩余筹码 **"@ + decimal(p.chips as nat) + "** · 需要跟注 **"@ + decimal(call as nat) + "**"@,
        ),
    ).push(button_row_json(quick_actions(snap, i)));
    let raises = if p.chips > call {
        let form = turn.push(raise_form_json(snap, i, id));
        if preset_buttons(snap, i).len() > 0 {
            form.push(button_row_json(preset_buttons(snap, i)))
        } else {
            form
        }
    } else {
        turn
    };
    raises.push(note_json("仅你可见 · 群里其他人看不到这些按钮"@))
}

pub open spec fn state_elements(snap: SnapshotView, include_buttons: bool, id: Seq<char>) -> Seq<JsonView> {
    let head = state_head(snap);
    if include_buttons {
        match snap.current_open_id {
            Some(open_id) => head + actor_part(snap, actor_seat(snap.players, open_id, 0), id),
            None => head,
        }
    } else if snap.stage.betting() {
        match snap.current_open_id {
            Some(open_id) => head.push(note_json(mention_id(snap.players, open_id) + " 行动中…"@)),
            None => head,
        }
    } else {
        head.push(note_json("等待发牌或本局已结束。"@))
    }
}

pub open spec fn state_subtitle(snap: SnapshotView) -> Seq<char> {
    "第 "@ + decimal(snap.hand_count as nat) + " 局 · "@ + snap.stage.title() + " · 底池 "@ + decimal(snap.pot as nat)
        + " · 当前注 "@ + decimal(snap.current_bet as nat)
}

pub open spec fn state_card_json(snap: SnapshotView, include_buttons: bool, id: Seq<char>) -> JsonView {
    card_json(
        header_with_subtitle_json("🎰 德州扑克"@, state_subtitle(snap), "wathet"@),
        state_elements(snap, include_buttons, id),
    )
}

fn build_state_head(snap: &GameSnapshot) -> (r: Vec<Json>)
    ensures
        list_view(r@) == state_head(snap@),
{
    let mut elements = no_items();
    if snap.community.len() > 0 {
        append_item(&mut elements, markdown("**公共牌**"));
        append_item(&mut elements, cards_row(snap.community.as_slice()));
    }
    let mut lines = no_texts();
    let mut i: usize = 0;
    while i < snap.players.len()
        invariant
            i <= snap.players@.len(),
            texts(lines@) =~= Seq::new(i as nat, |k: int| state_line(snap@, k)),
        decreases snap.players@.len() - i,
    {
        append_text(&mut lines, state_line_text(snap, i));
        i = i + 1;
    }
    assert(texts(lines@) =~= Seq::new(snap@.players.len(), |i: int| state_line(snap@, i)));
    append_item(&mut elements, markdown(join(&lines, "\n").as_str()));
    assert(list_view(elements@) =~= state_head(snap@));
    elements
}

fn build_actor_part(snap: &GameSnapshot, idx: usize, form: Json) -> (r: Vec<Json>)
    requires
        idx < snap.players@.len(),
        amounts_fit(snap@),
    ensures
        forall|id: Seq<char>|
            form@ == #[trigger] raise_form_json(snap@, idx as int, id) ==> list_view(r@) == actor_part(snap@, idx as int, id),
{
    assert(snap@.players[idx as int] == snap.players@[idx as int]@);
    assert(snap@.players[idx as int].chips + snap@.players[idx as int].bet_in_round <= u64::MAX);
    let p = &snap.players[idx];
    let call: u64 = snap.current_bet.saturating_sub(p.bet_in_round);
    let mut elements = one_item(hr());
    // Always re-surface the actor's own hole cards on their action card so they
    // don't have to scroll up to the first message.
    if snap.viewer_hole.len() > 0 {
        append_item(&mut elements, markdown("**你的手牌**"));
        append_item(&mut elements, cards_row(snap.viewer_hole.as_slice()));
    }
    let s = plus_number("🎯 **你的回合** · 剩余筹码 **".to_owned(), p.chips);
    let s = plus_number(plus(s, "** · 需要跟注 **"), call);
    append_item(&mut elements, markdown(plus(s, "**").as_str()));
    // Quick actions: Fold + (Check or Call) + All-in
    append_item(&mut elements, button_row(quick_action_buttons(snap, idx)));
    // Custom raise via input form, plus a row of raise presets
    if p.chips > call {
        append_item(&mut elements, form);
        let presets = raise_preset_buttons(snap, idx);
        assert(list_view(presets@).len() == presets@.len());
        if presets.len() > 0 {
            append_item(&mut elements, button_row(presets));
        }
    }
    append_item(&mut elements, note("仅你可见 · 群里其他人看不到这些按钮"));
    assert forall|id: Seq<char>| form@ == #[trigger] raise_form_json(snap@, idx as int, id) implies list_view(elements@)
        == actor_part(snap@, idx as int, id) by {
        assert(list_view(elements@) =~= actor_part(snap@, idx as int, id));
    }
    elements
}

fn append_items(items: &mut Vec<Json>, more: Vec<Json>)
    ensures
        list_view(final(items)@) == list_view(old(items)@) + list_view(more@),
{
    let ghost added = list_view(more@);
    let mut more = more;
    items.append(&mut more);
    assert(list_view(items@) =~= list_view(old(items)@) + added);
}

fn state_card_of(snap: &GameSnapshot, elements: Vec<Json>) -> (r: Json)
    ensures
        r@ == card_json(
            header_with_subtitle_json("🎰 德州扑克"@, state_subtitle(snap@), "wathet"@),
            list_view(elements@),
        ),
{
    let s = plus_number("第 ".to_owned(), snap.hand_count as u64);
    let s = plus(plus(s, " 局 · "), snap.stage.label());
    let s = plus_number(plus(s, " · 底池 "), snap.pot);
    let subtitle = plus_number(plus(s, " · 当前注 "), snap.current_bet);
    card(header_with_subtitle("🎰 德州扑克", subtitle.as_str(), "wathet"), elements)
}

/// Render the full game state. If `include_buttons` is true the card also shows
/// the actor-specific call amount and the action buttons — only ever rendered
/// into a message that the actor alone sees.
pub fn build_state_card(snap: &GameSnapshot, include_buttons: bool) -> (r: Json)
    requires
        include_buttons && snap@.current_open_id is Some ==> snap@.players.len() > 0 && amounts_fit(snap@),
    ensures
        exists|id: Seq<char>| is_simple_id(id) && r@ == #[trigger] state_card_json(snap@, include_buttons, id),
{
    let mut elements = build_state_head(snap);
    if include_buttons {
        if let Some(open_id) = &snap.current_open_id {
            assert(snap@.players.len() == snap.players@.len());
            let idx = find_actor(snap, open_id.as_str());
            assert(snap@.players[idx as int] == snap.players@[idx as int]@);
            assert(snap@.players[idx as int].chips + snap@.players[idx as int].bet_in_round <= u64::MAX);
            let form = raise_form_block(snap, idx);
            let ghost id = choose|id: Seq<char>| is_simple_id(id) && form@ == #[trigger] raise_form_json(snap@, idx as int, id);
            append_items(&mut elements, build_actor_part(snap, idx, form));
            let r = state_card_of(snap, elements);
            assert(r@ == state_card_json(snap@, include_buttons, id));
            return r;
        }
    } else if snap.stage.is_betting() {
        if let Some(open_id) = &snap.current_open_id {
            append_item(&mut elements, note(plus(mention_id_text(snap, open_id.as_str()), " 行动中…").as_str()));
        }
    } else {
        append_item(&mut elements, note("等待发牌或本局已结束。"));
    }
    let r = state_card_of(snap, elements);
    proof {
        let id = Seq::new(32, |i: int| '0');
        assert(is_simple_id(id));
        assert(r@ == state_card_json(snap@, include_buttons, id));
    }
    r
}

// ---------- announcements ----------

/// The players who have bets in, with the amounts.
pub open spec fn blind_posters(players: Seq<PlayerSnapshotView>) -> Seq<Seq<char>>
    decreases players.len(),
{
    if players.len() == 0 {
        Seq::empty()
    } else {
        let p = players.last();
        let rest = blind_posters(players.drop_last());
        if p.bet_in_round > 0 {
            rest.push(mention(p) + " ("@ + decimal(p.bet_in_round as nat) + ")"@)
        } else {
            rest
        }
    }
}

pub open spec fn hand_start_text(snap: SnapshotView) -> Seq<char> {
    let dealer = if snap.dealer_idx < snap.players.len() {
        mention(snap.players[snap.dealer_idx])
    } else {
        "?"@
    };
    let posters = blind_posters(snap.players);
    let head = "庄家 "@ + dealer;
    let blinds = if posters.len() > 0 { head + "\n盲注："@ + joined(posters, " · "@) } else { head };
    match snap.current_open_id {
        Some(id) => blinds + "\n↓ 首位 "@ + mention_id(snap.players, id),
        None => blinds,
    }
}

pub open spec fn hand_start_elements(snap: SnapshotView) -> Seq<JsonView> {
    seq![markdown_json(hand_start_text(snap)), note_json("行动按钮以**仅当前玩家可见**的方式发出"@)]
}

pub open spec fn hand_start_json(snap: SnapshotView) -> JsonView {
    card_json(
        header_with_subtitle_json(
            "🂠 第 "@ + decimal(snap.hand_count as nat) + " 局开始"@,
            "底池 "@ + decimal(snap.pot as nat),
            "turquoise"@,
        ),
        hand_start_elements(snap),
    )
}

/// One-shot public card posted at the start of a hand so non-actors immediately
/// know the hand began, who's in, and who's first to act.
pub fn build_hand_start_card(snap: &GameSnapshot) -> (r: Json)
    ensures
        r@ == hand_start_json(snap@),
{
    assert(snap@.players.len() == snap.players@.len());
    let dealer = if snap.dealer_idx < snap.players.len() {
        assert(snap@.players[snap.dealer_idx as int] == snap.players@[snap.dealer_idx as int]@);
        mention_text(&snap.players[snap.dealer_idx])
    } else {
        "?".to_owned()
    };
    // Players who posted blinds this hand are exactly the ones whose
    // bet_in_round is positive.
    let ghost all = snap@.players;
    let mut posters = no_texts();
    let mut i: usize = 0;
    while i < snap.players.len()
        invariant
            i <= snap.players@.len(),
            all == snap@.players,
            all.len() == snap.players@.len(),
            texts(posters@) == blind_posters(all.take(i as int)),
        decreases snap.players@.len() - i,
    {
        assert(all.take(i + 1).drop_last() =~= all.take(i as int));
        assert(all.take(i + 1).last() == snap.players@[i as int]@);
        let p = &snap.players[i];
        if p.bet_in_round > 0 {
            let s = plus_number(plus(mention_text(p), " ("), p.bet_in_round);
            append_text(&mut posters, plus(s, ")"));
        }
        i = i + 1;
    }
    assert(all.take(snap.players@.len() as int) =~= all);
    assert(texts(posters@).len() == posters@.len());
    let mut body = plus("庄家 ".to_owned(), dealer.as_str());
    if posters.len() > 0 {
        body = plus(plus(body, "\n盲注："), join(&posters, " · ").as_str());
    }
    if let Some(id) = &snap.current_open_id {
        body = plus(plus(body, "\n↓ 首位 "), mention_id_text(snap, id.as_str()).as_str());
    }
    let title = plus(plus_number("🂠 第 ".to_owned(), snap.hand_count as u64), " 局开始");
    let subtitle = plus_number("底池 ".to_owned(), snap.pot);
    let elements = two_items(markdown(body.as_str()), note("行动按钮以**仅当前玩家可见**的方式发出"));
    assert(list_view(elements@) =~= hand_start_elements(snap@));
    card(header_with_subtitle(title.as_str(), subtitle.as_str(), "turquoise"), elements)
}

pub open spec fn action_text(kind: ActionKind, amount: int) -> Seq<char> {
    match kind {
        ActionKind::Fold => "弃牌"@,
        ActionKind::Check => "过牌"@,
        ActionKind::Call => "跟注到 "@ + decimal(amount as nat),
        ActionKind::Bet => "下注 "@ + decimal(amount as nat),
        ActionKind::Raise => "加注到 "@ + decimal(amount as nat),
        ActionKind::AllIn => "全押 "@ + decimal(amount as nat),
    }
}

pub(crate) fn describe_action(kind: ActionKind, amount: u64) -> (r: String)
    ensures
        r@ == action_text(kind, amount as int),
{
    match kind {
        ActionKind::Fold => "弃牌".to_owned(),
        ActionKind::Check => "过牌".to_owned(),
        ActionKind::Call => plus_number("跟注到 ".to_owned(), amount),
        ActionKind::Bet => plus_number("下注 ".to_owned(), amount),
        ActionKind::Raise => plus_number("加注到 ".to_owned(), amount),
        ActionKind::AllIn => plus_number("全押 ".to_owned(), amount),
    }
}

pub open spec fn card_names(cards: Seq<Card>) -> Seq<Seq<char>> {
    Seq::new(cards.len(), |i: int| cards[i].name())
}

/// The cards' names with spaces between them.
pub fn card_labels(cards: &[Card]) -> (r: String)
    ensures
        r@ == joined(card_names(cards@), " "@),
{
    let mut names = no_texts();
    let mut i: usize = 0;
    while i < cards.len()
        invariant
            i <= cards@.len(),
            texts(names@) =~= Seq::new(i as nat, |k: int| cards@[k].name()),
        decreases cards@.len() - i,
    {
        append_text(&mut names, cards[i].label());
        i = i + 1;
    }
    assert(texts(names@) =~= card_names(cards@));
    join(&names, " ")
}

pub open spec fn announcement_subtitle(snap: SnapshotView) -> Seq<char> {
    let pot = "底池 "@ + decimal(snap.pot as nat);
    if snap.community.len() > 0 {
        pot + " · 公共 "@ + joined(card_names(snap.community), " "@)
    } else {
        pot
    }
}

pub open spec fn announcement_text(snap: SnapshotView, log: ActionLogEntry) -> Seq<char> {
    let p = snap.players[log.player_idx as int];
    let head = mention(p) + " "@ + action_text(log.kind, log.amount as int) + " (筹码 "@ + decimal(p.chips as nat)
        + ")"@;
    match snap.current_open_id {
        Some(id) => if snap.stage.betting() && id != p.open_id {
            head + "\n↓ 下一位 "@ + mention_id(snap.players, id)
        } else {
            head
        },
        None => head,
    }
}

/// Public, post-action announcement. Carries enough state info that non-actors
/// can follow the hand without ever seeing the actor's card.
pub fn build_action_announcement(snap: &GameSnapshot, log: &ActionLogEntry) -> (r: Json)
    requires
        log.player_idx < snap.players@.len(),
    ensures
        r@ == card_json(
            header_with_subtitle_json("🎴 行动"@, announcement_subtitle(snap@), "wathet"@),
            seq![markdown_json(announcement_text(snap@, *log))],
        ),
{
    let p = &snap.players[log.player_idx];
    assert(snap@.players[log.player_idx as int] == p@);
    let mut subtitle = plus_number("底池 ".to_owned(), snap.pot);
    if snap.community.len() > 0 {
        subtitle = plus(plus(subtitle, " · 公共 "), card_labels(snap.community.as_slice()).as_str());
    }
    let s = plus(plus(mention_text(p), " "), describe_action(log.kind, log.amount).as_str());
    let mut body = plus(plus_number(plus(s, " (筹码 "), p.chips), ")");
    if snap.stage.is_betting() {
        if let Some(id) = &snap.current_open_id {
            if !same_text(id.as_str(), p.open_id.as_str()) {
                body = plus(plus(body, "\n↓ 下一位 "), mention_id_text(snap, id.as_str()).as_str());
            }
        }
    }
    card(
        header_with_subtitle("🎴 行动", subtitle.as_str(), "wathet"),
        one_item(markdown(body.as_str())),
    )
}

pub open spec fn stage_template(stage: Stage) -> Seq<char> {
    match stage {
        Stage::Flop => "indigo"@,
        Stage::Turn => "violet"@,
        Stage::River => "carmine"@,
        _ => "blue"@,
    }
}

pub open spec fn stage_elements(new_cards: Seq<Card>, community: Seq<Card>) -> Seq<JsonView> {
    let new = seq![markdown_json("**新增公共牌**"@), cards_row_json(new_cards)];
    if community.len() > new_cards.len() {
        new.push(markdown_json("**全部公共牌**"@)).push(cards_row_json(community))
    } else {
        new
    }
}

/// The cards that a new stage reveals.
pub fn build_stage_card(stage: Stage, new_cards: &[Card], snap: &GameSnapshot) -> (r: Json)
    ensures
        r@ == card_json(
            header_with_subtitle_json("🂠 "@ + stage.title(), "底池 "@ + decimal(snap@.pot as nat), stage_template(stage)),
            stage_elements(new_cards@, snap@.community),
        ),
{
    let template = match stage {
        Stage::Flop => "indigo",
        Stage::Turn => "violet",
        Stage::River => "carmine",
        _ => "blue",
    };
    let mut elements = two_items(markdown("**新增公共牌**"), cards_row(new_cards));
    if snap.community.len() > new_cards.len() {
        append_item(&mut elements, markdown("**全部公共牌**"));
        append_item(&mut elements, cards_row(snap.community.as_slice()));
    }
    assert(list_view(elements@) =~= stage_elements(new_cards@, snap@.community));
    let title = plus("🂠 ".to_owned(), stage.label());
    let subtitle = plus_number("底池 ".to_owned(), snap.pot);
    card(header_with_subtitle(title.as_str(), subtitle.as_str(), template), elements)
}

// ---------- chips ----------

pub open spec fn chips_line(p: PlayerSnapshotView) -> Seq<char> {
    "• "@ + mention(p) + " — **"@ + decimal(p.chips as nat) + "** 筹码"@
}

/// What everybody has, or `None` at an empty table.
pub fn build_chips_card(snap: &GameSnapshot) -> (r: Option<Json>)
    ensures
        match r {
            Some(c) => snap@.players.len() > 0 && c@ == card_json(
                header_json("筹码"@, "blue"@),
                seq![markdown_json(joined(Seq::new(snap@.players.len(), |i: int| chips_line(snap@.players[i])), "\n"@))],
            ),
            None => snap@.players.len() == 0,
        },
{
    if snap.players.len() == 0 {
        return None;
    }
    let mut lines = no_texts();
    let mut i: usize = 0;
    while i < snap.players.len()
        invariant
            i <= snap.players@.len(),
            snap@.players.len() == snap.players@.len(),
            texts(lines@) =~= Seq::new(i as nat, |k: int| chips_line(snap@.players[k])),
        decreases snap.players@.len() - i,
    {
        let p = &snap.players[i];
        assert(snap@.players[i as int] == p@);
        let s = plus(plus("• ".to_owned(), mention_text(p).as_str()), " — **");
        append_text(&mut lines, plus(plus_number(s, p.chips), "** 筹码"));
        i = i + 1;
    }
    assert(texts(lines@) =~= Seq::new(snap@.players.len(), |i: int| chips_line(snap@.players[i])));
    Some(card(header("筹码", "blue"), one_item(markdown(join(&lines, "\n").as_str()))))
}

// ---------- the end of a hand ----------

/// What is shown of one hand at showdown.
pub open spec fn showdown_part(snap: SnapshotView, s: ShowdownView, mode: DeckMode) -> Seq<JsonView> {
    seq![
        markdown_json(mention(snap.players[s.player_idx]) + " · "@ + category_title(s.rank.category, mode)),
        markdown_json("手牌"@),
        cards_row_json(s.hole),
        markdown_json("最佳五张"@),
        cards_row_json(s.best_five),
        hr_json(),
    ]
}

/// The board and the first `n` hands.
pub open spec fn showdown_parts(snap: SnapshotView, shows: Seq<ShowdownView>, mode: DeckMode, n: nat) -> Seq<JsonView>
    decreases n,
{
    if n == 0 {
        seq![markdown_json("**公共牌**"@), cards_row_json(snap.community), hr_json()]
    } else {
        showdown_parts(snap, shows, mode, (n - 1) as nat) + showdown_part(snap, shows[n - 1], mode)
    }
}

pub open spec fn payout_line(snap: SnapshotView, k: int, p: PayoutView) -> Seq<char> {
    let label = if k == 0 { "💰 主池"@ } else { "💰 边池 #"@ + decimal(k as nat) };
    let head = label + " **"@ + decimal(p.amount as nat) + "** 筹码 → "@;
    if p.winners.len() == 0 {
        head + "无人领取"@
    } else {
        head + joined(Seq::new(p.winners.len(), |i: int| mention(snap.players[p.winners[i]])), "、"@) + " ("@
            + p.note + ")"@
    }
}

pub open spec fn stack_text(p: PlayerSnapshotView) -> Seq<char> {
    mention(p) + ": "@ + decimal(p.chips as nat)
}

pub open spec fn summary_elements(snap: SnapshotView, summary: SummaryView, mode: DeckMode) -> Seq<JsonView> {
    let shows = if summary.showdowns.len() > 0 {
        showdown_parts(snap, summary.showdowns, mode, summary.showdowns.len())
    } else {
        Seq::empty()
    };
    let payouts = Seq::new(summary.payouts.len(), |k: int| markdown_json(payout_line(snap, k, summary.payouts[k])));
    let stacks = joined(Seq::new(snap.players.len(), |i: int| stack_text(snap.players[i])), " · "@);
    (shows + payouts).push(note_json("筹码 — "@ + stacks + "\n点大厅卡片 **开局** 进入下一局"@))
}

/// Whether the seats that a summary names are seats of the table.
pub open spec fn seats_exist(snap: SnapshotView, summary: SummaryView) -> bool {
    &&& forall|k: int| 0 <= k < summary.showdowns.len() ==> 0 <= (#[trigger] summary.showdowns[k]).player_idx < snap.players.len()
    &&& forall|k: int, j: int|
        0 <= k < summary.payouts.len() && 0 <= j < summary.payouts[k].winners.len() ==> 0 <= #[trigger] summary.payouts[k].winners[j]
            < snap.players.len()
}

fn build_payout_line(snap: &GameSnapshot, k: usize, p: &PotPayout) -> (r: String)
    requires
        forall|j: int| 0 <= j < p.winners@.len() ==> (#[trigger] p.winners@[j]) < snap.players@.len(),
    ensures
        r@ == payout_line(snap@, k as int, p@),
{
    let label = if k == 0 {
        "💰 主池".to_owned()
    } else {
        plus_number("💰 边池 #".to_owned(), k as u64)
    };
    let head = plus(plus_number(plus(label, " **"), p.amount), "** 筹码 → ");
    assert(p@.winners.len() == p.winners@.len());
    if p.winners.len() == 0 {
        return plus(head, "无人领取");
    }
    let mut names = no_texts();
    let mut i: usize = 0;
    while i < p.winners.len()
        invariant
            i <= p.winners@.len(),
            snap@.players.len() == snap.players@.len(),
            forall|j: int| 0 <= j < p.winners@.len() ==> (#[trigger] p.winners@[j]) < snap.players@.len(),
            texts(names@) =~= Seq::new(i as nat, |j: int| mention(snap@.players[p@.winners[j]])),
        decreases p.winners@.len() - i,
    {
        let w = p.winners[i];
        assert(p@.winners[i as int] == w);
        assert(snap@.players[w as int] == snap.players@[w as int]@);
        append_text(&mut names, mention_text(&snap.players[w]));
        i = i + 1;
    }
    assert(texts(names@) =~= Seq::new(p@.winners.len(), |i: int| mention(snap@.players[p@.winners[i]])));
    let s = plus(plus(head, join(&names, "、").as_str()), " (");
    plus(plus(s, p.note.as_str()), ")")
}

fn build_showdown_parts(snap: &GameSnapshot, summary: &HandSummary, mode: DeckMode) -> (r: Vec<Json>)
    requires
        seats_exist(snap@, summary@),
    ensures
        list_view(r@) == showdown_parts(snap@, summary@.showdowns, mode, summary@.showdowns.len()),
{
    let mut elements = two_items(markdown("**公共牌**"), cards_row(snap.community.as_slice()));
    append_item(&mut elements, hr());
    let ghost shows = summary@.showdowns;
    assert(list_view(elements@) =~= showdown_parts(snap@, shows, mode, 0));
    let mut k: usize = 0;
    while k < summary.showdowns.len()
        invariant
            k <= summary.showdowns@.len(),
            shows == summary@.showdowns,
            shows.len() == summary.showdowns@.len(),
            snap@.players.len() == snap.players@.len(),
            seats_exist(snap@, summary@),
            list_view(elements@) == showdown_parts(snap@, shows, mode, k as nat),
        decreases summary.showdowns@.len() - k,
    {
        let s = &summary.showdowns[k];
        assert(shows[k as int] == s@);
        assert(0 <= shows[k as int].player_idx < snap@.players.len());
        assert(snap@.players[s.player_idx as int] == snap.players@[s.player_idx as int]@);
        let ghost before = list_view(elements@);
        let p = &snap.players[s.player_idx];
        let line = plus(plus(mention_text(p), " · "), category_name(s.rank.category, mode));
        append_item(&mut elements, markdown(line.as_str()));
        append_item(&mut elements, markdown("手牌"));
        append_item(&mut elements, cards_row(s.hole.as_slice()));
        append_item(&mut elements, markdown("最佳五张"));
        append_item(&mut elements, cards_row(s.best_five.as_slice()));
        append_item(&mut elements, hr());
        assert(list_view(elements@) =~= before + showdown_part(snap@, shows[k as int], mode));
        k = k + 1;
    }
    elements
}

/// The public card at the end of a hand: who showed what, who won what, and
/// what everybody has.
pub fn build_summary_card(snap: &GameSnapshot, summary: &HandSummary, mode: DeckMode) -> (r: Json)
    requires
        seats_exist(snap@, summary@),
    ensures
        r@ == card_json(
            header_with_subtitle_json("🏆 牌局结束"@, "第 "@ + decimal(snap@.hand_count as nat) + " 局"@, "turquoise"@),
            summary_elements(snap@, summary@, mode),
        ),
{
    let ghost shows = if summary@.showdowns.len() > 0 {
        showdown_parts(snap@, summary@.showdowns, mode, summary@.showdowns.len())
    } else {
        Seq::empty()
    };
    assert(summary@.showdowns.len() == summary.showdowns@.len());
    let mut elements = if summary.showdowns.len() > 0 {
        build_showdown_parts(snap, summary, mode)
    } else {
        no_items()
    };
    assert(list_view(elements@) == shows);
    let ghost payouts = summary@.payouts;
    let mut k: usize = 0;
    while k < summary.payouts.len()
        invariant
            k <= summary.payouts@.len(),
            payouts == summary@.payouts,
            payouts.len() == summary.payouts@.len(),
            seats_exist(snap@, summary@),
            list_view(elements@) =~= shows + Seq::new(k as nat, |j: int| markdown_json(payout_line(snap@, j, payouts[j]))),
        decreases summary.payouts@.len() - k,
    {
        let p = &summary.payouts[k];
        assert(payouts[k as int] == p@);
        assert forall|j: int| 0 <= j < p.winners@.len() implies (#[trigger] p.winners@[j]) < snap.players@.len() by {
            assert(p@.winners[j] == p.winners@[j]);
            assert(summary@.payouts[k as int].winners[j] < snap@.players.len());
        }
        append_item(&mut elements, markdown(build_payout_line(snap, k, p).as_str()));
        k = k + 1;
    }
    let mut stacks = no_texts();
    let mut i: usize = 0;
    while i < snap.players.len()
        invariant
            i <= snap.players@.len(),
            snap@.players.len() == snap.players@.len(),
            texts(stacks@) =~= Seq::new(i as nat, |j: int| stack_text(snap@.players[j])),
        decreases snap.players@.len() - i,
    {
        let p = &snap.players[i];
        assert(snap@.players[i as int] == p@);
        append_text(&mut stacks, plus_number(plus(mention_text(p), ": "), p.chips));
        i = i + 1;
    }
    assert(texts(stacks@) =~= Seq::new(snap@.players.len(), |i: int| stack_text(snap@.players[i])));
    let s = plus("筹码 — ".to_owned(), join(&stacks, " · ").as_str());
    append_item(&mut elements, note(plus(s, "\n点大厅卡片 **开局** 进入下一局").as_str()));
    assert(list_view(elements@) =~= summary_elements(snap@, summary@, mode));
    let subtitle = plus(plus_number("第 ".to_owned(), snap.hand_count as u64), " 局");
    card(header_with_subtitle("🏆 牌局结束", subtitle.as_str(), "turquoise"), elements)
}

} // verus!
