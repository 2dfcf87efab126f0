//! What the buttons of the cards do.

use vstd::prelude::*;
use vstd::string::*;
use crate::feishu::cards::button_json;
use crate::feishu::events::CardActionView;
use crate::feishu::json::{get_after_set, JsonView};
use crate::game::view::GameView;
use crate::game::PlayerAction;
use crate::poker::DeckMode;
use crate::spelling::{a_number_is_read_back, only_digits_are_a_number};
use crate::text::{decimal, trimmed};
use super::cards::{action_base, action_button, lobby_button, max_to, min_raise_to, preset_button, quick_actions, to_call};
use super::clicks::{click_of, lobby_click, ClickView, LobbyClick};
use super::raises::is_preset;
use super::snapshot::{snapshot_of, SnapshotView};

verus! {

// ---- what a click asks for ----

/// The buttons of the lobby.
pub open spec fn lobby_button_of(click: LobbyClick) -> Seq<char> {
    match click {
        LobbyClick::Join => "join_lobby"@,
        LobbyClick::Leave => "leave_lobby"@,
        LobbyClick::Start(DeckMode::Standard) => "start_lobby"@,
        LobbyClick::Start(DeckMode::ShortDeck) => "start_short_lobby"@,
        LobbyClick::StartWolf => "start_wolf_lobby"@,
        LobbyClick::AddAi => "add_ai_lobby"@,
        LobbyClick::RemoveAi => "remove_ai_lobby"@,
        LobbyClick::Reset => "reset_lobby"@,
    }
}

/// No button is another one.
proof fn buttons_differ()
    ensures
        "fold"@ != "check"@,
        "fold"@ != "call"@,
        "fold"@ != "allin"@,
        "fold"@ != "raise"@,
        "fold"@ != "raise_custom"@,
        "check"@ != "call"@,
        "check"@ != "allin"@,
        "check"@ != "raise"@,
        "check"@ != "raise_custom"@,
        "call"@ != "allin"@,
        "call"@ != "raise"@,
        "call"@ != "raise_custom"@,
        "allin"@ != "raise"@,
        "allin"@ != "raise_custom"@,
        "raise"@ != "raise_custom"@,
        forall|a: LobbyClick, b: LobbyClick| a != b ==> #[trigger] lobby_button_of(a) != #[trigger] lobby_button_of(b),
        forall|a: LobbyClick|
            {
                let id = #[trigger] lobby_button_of(a);
                id != "fold"@ && id != "check"@ && id != "call"@ && id != "allin"@ && id != "raise"@ && id != "raise_custom"@
            },
{
    reveal_strlit("fold");
    reveal_strlit("check");
    reveal_strlit("call");
    reveal_strlit("allin");
    reveal_strlit("raise");
    reveal_strlit("raise_custom");
    reveal_strlit("join_lobby");
    reveal_strlit("leave_lobby");
    reveal_strlit("start_lobby");
    reveal_strlit("start_short_lobby");
    reveal_strlit("start_wolf_lobby");
    reveal_strlit("add_ai_lobby");
    reveal_strlit("remove_ai_lobby");
    reveal_strlit("reset_lobby");
    assert("fold"@[0] == 'f' && "check"@[1] == 'h' && "call"@[1] == 'a' && "allin"@[0] == 'a' && "raise"@[0] == 'r');
    assert("check"@[0] == 'c' && "call"@[0] == 'c');
    assert("join_lobby"@[0] == 'j' && "leave_lobby"@[0] == 'l' && "reset_lobby"@[2] == 's' && "remove_ai_lobby"@[2] == 'm');
    assert("start_lobby"@.len() == 11 && "start_short_lobby"@.len() == 17 && "start_wolf_lobby"@.len() == 16);
    assert("add_ai_lobby"@.len() == 12 && "join_lobby"@.len() == 10 && "leave_lobby"@.len() == 11);
    assert("reset_lobby"@.len() == 11 && "remove_ai_lobby"@.len() == 15 && "raise_custom"@.len() == 12);
    assert("start_lobby"@[0] == 's' && "reset_lobby"@[0] == 'r' && "add_ai_lobby"@[0] == 'a' && "raise_custom"@[0] == 'r');
}

/// No button of the lobby is another one.
pub proof fn lobby_buttons_differ()
    ensures
        forall|a: LobbyClick, b: LobbyClick| a != b ==> #[trigger] lobby_button_of(a) != #[trigger] lobby_button_of(b),
{
    buttons_differ();
}

/// What the click's button sends besides: the hand it belongs to, and whose it is.
pub open spec fn hand_sent(action: CardActionView) -> int {
    match action.value.get_number("hand"@) {
        Some(n) => n,
        None => 0,
    }
}

pub open spec fn actor_sent(action: CardActionView) -> Seq<char> {
    match action.value.get_text("actor"@) {
        Some(id) => id,
        None => Seq::empty(),
    }
}

pub open spec fn chat_sent(action: CardActionView) -> Seq<char> {
    match action.value.get_text("chat_id"@) {
        Some(id) => id,
        None => action.open_chat_id,
    }
}

proof fn sent(action: CardActionView)
    ensures
        crate::feishu::json::or_text(action.value.get_text("actor"@), ""@) == actor_sent(action),
        super::clicks::chat_of(action) == chat_sent(action),
{
    reveal_strlit("");
    assert(""@ =~= Seq::<char>::empty());
}

/// A button of the lobby does its own thing, at any time and for anybody.
pub proof fn each_lobby_button_does_its_thing(action: CardActionView, table: Option<GameView>, click: LobbyClick)
    ensures
        click_of(action, table) == ClickView::Lobby(click, chat_sent(action)) <==> action.value.get_text("action"@) == Some(
            lobby_button_of(click),
        ),
{
    buttons_differ();
    sent(action);
    assert(lobby_button_of(LobbyClick::Join) == "join_lobby"@);
    assert(lobby_button_of(LobbyClick::Leave) == "leave_lobby"@);
    assert(lobby_button_of(LobbyClick::Start(DeckMode::Standard)) == "start_lobby"@);
    assert(lobby_button_of(LobbyClick::Start(DeckMode::ShortDeck)) == "start_short_lobby"@);
    assert(lobby_button_of(LobbyClick::StartWolf) == "start_wolf_lobby"@);
    assert(lobby_button_of(LobbyClick::AddAi) == "add_ai_lobby"@);
    assert(lobby_button_of(LobbyClick::RemoveAi) == "remove_ai_lobby"@);
    assert(lobby_button_of(LobbyClick::Reset) == "reset_lobby"@);
}

/// Whether a button that belongs to somebody is theirs to press now: it is of this hand,
/// the hand is being bet, it is the actor's, and it is the actor who pressed it.
pub open spec fn in_time(action: CardActionView, g: GameView) -> bool {
    &&& hand_sent(action) == 0 || hand_sent(action) % 0x1_0000_0000 == g.hand_count
    &&& g.stage.betting()
    &&& g.current_idx >= g.players.len() || g.players[g.current_idx].open_id == actor_sent(action)
    &&& action.open_id == actor_sent(action)
}

/// A button of an action card that is not in time is refused, whatever it is, and
/// one that is in time is the action that stands on it.
pub proof fn each_action_button_does_its_thing(action: CardActionView, g: GameView)
    requires
        actor_sent(action).len() > 0,
        forall|c: LobbyClick| action.value.get_text("action"@) != Some(#[trigger] lobby_button_of(c)),
        action.value.get_text("action"@) is Some,
    ensures
        ({
            let id = action.value.get_text("action"@)->0;
            let r = click_of(action, Some(g));
            let chat = chat_sent(action);
            &&& !in_time(action, g) ==> r is Refused
            &&& in_time(action, g) && id == "fold"@ ==> r == ClickView::Act(PlayerAction::Fold, chat)
            &&& in_time(action, g) && id == "check"@ ==> r == ClickView::Act(PlayerAction::Check, chat)
            &&& in_time(action, g) && id == "call"@ ==> r == ClickView::Act(PlayerAction::Call, chat)
            &&& in_time(action, g) && id == "allin"@ ==> r == ClickView::Act(PlayerAction::AllIn, chat)
            &&& in_time(action, g) && id == "raise"@ ==> (match action.value.get_number("to"@) {
                Some(to) => to != 0 ==> r == ClickView::Act(PlayerAction::RaiseTo(to as u64), chat),
                None => r is Refused,
            })
            &&& in_time(action, g) && id == "raise"@ && action.value.get_number("to"@) == Some(0int) ==> r is Refused
        }),
{
    buttons_differ();
    sent(action);
    assert(action.value.get_text("action"@) != Some(lobby_button_of(LobbyClick::Join)));
    assert(action.value.get_text("action"@) != Some(lobby_button_of(LobbyClick::Leave)));
    assert(action.value.get_text("action"@) != Some(lobby_button_of(LobbyClick::Start(DeckMode::Standard))));
    assert(action.value.get_text("action"@) != Some(lobby_button_of(LobbyClick::Start(DeckMode::ShortDeck))));
    assert(action.value.get_text("action"@) != Some(lobby_button_of(LobbyClick::StartWolf)));
    assert(action.value.get_text("action"@) != Some(lobby_button_of(LobbyClick::AddAi)));
    assert(action.value.get_text("action"@) != Some(lobby_button_of(LobbyClick::RemoveAi)));
    assert(action.value.get_text("action"@) != Some(lobby_button_of(LobbyClick::Reset)));
}

/// Why a button of an action card is refused: it is of an earlier hand, it is no longer
/// that player's turn, the hand is over, or somebody else pressed it.
pub proof fn why_a_button_is_refused(action: CardActionView, g: GameView)
    requires
        actor_sent(action).len() > 0,
        forall|c: LobbyClick| action.value.get_text("action"@) != Some(#[trigger] lobby_button_of(c)),
        action.value.get_text("action"@) is Some,
    ensures
        ({
            let r = click_of(action, Some(g));
            let this_hand = hand_sent(action) == 0 || hand_sent(action) % 0x1_0000_0000 == g.hand_count;
            let their_turn = g.current_idx >= g.players.len() || g.players[g.current_idx].open_id == actor_sent(action);
            &&& !this_hand ==> r == ClickView::Refused("这是上一局的按钮"@)
            &&& this_hand && !g.stage.betting() ==> r == ClickView::Refused("本局已结束 · 点大厅卡 [开局] 开始新一局"@)
            &&& this_hand && g.stage.betting() && !their_turn ==> r == ClickView::Refused("这张卡片已失效 · 最新行动卡在下方"@)
            &&& this_hand && g.stage.betting() && their_turn && action.open_id != actor_sent(action) ==> r == ClickView::Refused(
                "现在不是你的回合"@,
            )
        }),
{
    no_lobby_button(action);
    sent(action);
}

proof fn no_lobby_button(action: CardActionView)
    requires
        forall|c: LobbyClick| action.value.get_text("action"@) != Some(#[trigger] lobby_button_of(c)),
        action.value.get_text("action"@) is Some,
    ensures
        lobby_click(action.value.get_text("action"@)->0) is None,
{
    assert(action.value.get_text("action"@) != Some(lobby_button_of(LobbyClick::Join)));
    assert(action.value.get_text("action"@) != Some(lobby_button_of(LobbyClick::Leave)));
    assert(action.value.get_text("action"@) != Some(lobby_button_of(LobbyClick::Start(DeckMode::Standard))));
    assert(action.value.get_text("action"@) != Some(lobby_button_of(LobbyClick::Start(DeckMode::ShortDeck))));
    assert(action.value.get_text("action"@) != Some(lobby_button_of(LobbyClick::StartWolf)));
    assert(action.value.get_text("action"@) != Some(lobby_button_of(LobbyClick::AddAi)));
    assert(action.value.get_text("action"@) != Some(lobby_button_of(LobbyClick::RemoveAi)));
    assert(action.value.get_text("action"@) != Some(lobby_button_of(LobbyClick::Reset)));
}

/// A raise that is typed, with white space around it or not, is a raise to that amount. What
/// is no number above zero is refused.
pub proof fn a_typed_raise_is_the_action(action: CardActionView, g: GameView, n: nat, text: Seq<char>)
    requires
        action.value.get_text("action"@) == Some("raise_custom"@),
        actor_sent(action).len() > 0,
        in_time(action, g),
        action.form_value.get_text("raise_to"@) == Some(text),
    ensures
        trimmed(text) == decimal(n) && 0 < n <= u64::MAX ==> click_of(action, Some(g)) == ClickView::Act(
            PlayerAction::RaiseTo(n as u64),
            chat_sent(action),
        ),
        trimmed(text) == decimal(0) || trimmed(text).len() == 0 || trimmed(text) == decimal(n) && n > u64::MAX ==> click_of(
            action,
            Some(g),
        ) is Refused,
        (exists|i: int| 1 <= i < trimmed(text).len() && !('0' <= #[trigger] trimmed(text)[i] <= '9')) ==> click_of(
            action,
            Some(g),
        ) is Refused,
{
    buttons_differ();
    sent(action);
    a_number_is_read_back(n);
    a_number_is_read_back(0);
    let t = trimmed(text);
    if exists|i: int| 1 <= i < t.len() && !('0' <= #[trigger] t[i] <= '9') {
        let i = choose|i: int| 1 <= i < t.len() && !('0' <= #[trigger] t[i] <= '9');
        only_digits_are_a_number(t, '0');
        only_digits_are_a_number(t.skip(1), '0');
        assert(t.skip(1)[i - 1] == t[i]);
    }
    assert forall|c: LobbyClick| action.value.get_text("action"@) != Some(#[trigger] lobby_button_of(c)) by {
        assert(lobby_button_of(c) != "raise_custom"@);
    }
    no_lobby_button(action);
}

// ---- what the buttons of the cards send ----

/// What pressing a button sends back.
pub open spec fn sends(button: JsonView) -> JsonView {
    button.get("behaviors"@)->0->List_0[0].get("value"@)->0
}

proof fn keys_differ()
    ensures
        "tag"@ != "behaviors"@,
        "text"@ != "behaviors"@,
        "type"@ != "behaviors"@,
        "size"@ != "behaviors"@,
        "width"@ != "behaviors"@,
        "type"@ != "value"@,
        "chat_id"@ != "hand"@,
        "chat_id"@ != "actor"@,
        "chat_id"@ != "action"@,
        "chat_id"@ != "to"@,
        "hand"@ != "actor"@,
        "hand"@ != "action"@,
        "hand"@ != "to"@,
        "actor"@ != "action"@,
        "actor"@ != "to"@,
        "action"@ != "to"@,
{
    reveal_strlit("tag");
    reveal_strlit("text");
    reveal_strlit("type");
    reveal_strlit("size");
    reveal_strlit("width");
    reveal_strlit("behaviors");
    reveal_strlit("value");
    reveal_strlit("chat_id");
    reveal_strlit("hand");
    reveal_strlit("actor");
    reveal_strlit("action");
    reveal_strlit("to");
    assert("type"@.len() == 4 && "value"@.len() == 5 && "behaviors"@.len() == 9);
    assert("chat_id"@.len() == 7 && "hand"@.len() == 4 && "actor"@.len() == 5 && "action"@.len() == 6 && "to"@.len() == 2);
}

pub proof fn a_button_sends_its_value(text: Seq<char>, value: JsonView, style: Seq<char>)
    ensures
        sends(button_json(text, value, style)) == value,
{
    keys_differ();
    reveal_with_fuel(crate::feishu::json::key_at, 8);
}

proof fn what_the_base_sends(snap: SnapshotView, i: int)
    ensures
        action_base(snap, i).get_text("chat_id"@) == Some(snap.chat_id),
        action_base(snap, i).get("hand"@) == Some(JsonView::Int(snap.hand_count)),
        action_base(snap, i).get_text("actor"@) == Some(snap.players[i].open_id),
        action_base(snap, i) is Object,
{
    keys_differ();
    reveal_with_fuel(crate::feishu::json::key_at, 5);
}

/// A button of the lobby card sends its own action, for the chat of the card.
pub proof fn a_lobby_button_sends_its_action(chat_id: Seq<char>, text: Seq<char>, click: LobbyClick, style: Seq<char>)
    ensures
        ({
            let sent = sends(lobby_button(chat_id, text, lobby_button_of(click), style));
            sent.get_text("action"@) == Some(lobby_button_of(click)) && sent.get_text("chat_id"@) == Some(chat_id)
        }),
{
    keys_differ();
    let base = JsonView::object().with_text("chat_id"@, chat_id);
    let id = lobby_button_of(click);
    let more = JsonView::object().with_text("action"@, id);
    reveal_with_fuel(JsonView::set_all, 3);
    assert(base.merged(more) == base.set("action"@, JsonView::Text(id)));
    get_after_set(base, "action"@, JsonView::Text(id));
    a_button_sends_its_value(text, base.merged(more), style);
    reveal_with_fuel(crate::feishu::json::key_at, 3);
}

/// Whether a button sends this action for seat `i` of this table.
pub open spec fn sends_for(snap: SnapshotView, i: int, button: JsonView, id: Seq<char>) -> bool {
    let sent = sends(button);
    &&& sent.get_text("action"@) == Some(id)
    &&& sent.get_text("chat_id"@) == Some(snap.chat_id)
    &&& sent.get("hand"@) == Some(JsonView::Int(snap.hand_count))
    &&& sent.get_text("actor"@) == Some(snap.players[i].open_id)
}

proof fn an_action_button_sends(snap: SnapshotView, i: int, text: Seq<char>, id: Seq<char>, style: Seq<char>)
    ensures
        sends_for(snap, i, action_button(snap, i, text, id, style), id),
{
    keys_differ();
    let base = action_base(snap, i);
    let more = JsonView::object().with_text("action"@, id);
    what_the_base_sends(snap, i);
    reveal_with_fuel(JsonView::set_all, 3);
    assert(base.merged(more) == base.set("action"@, JsonView::Text(id)));
    get_after_set(base, "action"@, JsonView::Text(id));
    a_button_sends_its_value(text, base.merged(more), style);
}

/// The row of quick actions: folding always; checking where nothing is to be called, else
/// calling where there are chips for more; and all-in where there are chips.
pub proof fn which_actions_are_offered(snap: SnapshotView, i: int)
    requires
        0 <= i < snap.players.len(),
        snap.players[i].chips >= 0,
    ensures
        ({
            let p = snap.players[i];
            let row = quick_actions(snap, i);
            let behind = snap.current_bet - p.bet_in_round;
            &&& row.len() > 0
            &&& sends_for(snap, i, row[0], "fold"@)
            &&& behind <= 0 && p.chips > 0 ==> row.len() == 3 && sends_for(snap, i, row[1], "check"@) && sends_for(snap, i, row[2], "allin"@)
            &&& behind <= 0 && p.chips == 0 ==> row.len() == 2 && sends_for(snap, i, row[1], "check"@)
            &&& behind > 0 && p.chips <= behind ==> row.len() == 2 && sends_for(snap, i, row[1], "allin"@)
            &&& behind > 0 && p.chips > behind ==> row.len() == 3 && sends_for(snap, i, row[1], "call"@) && sends_for(
                snap,
                i,
                row[2],
                "allin"@,
            )
        }),
{
    let all_in = "全押 "@ + crate::text::decimal(max_to(snap, i) as nat);
    an_action_button_sends(snap, i, "弃牌"@, "fold"@, "danger_text"@);
    an_action_button_sends(snap, i, "过牌"@, "check"@, "primary_filled"@);
    an_action_button_sends(snap, i, all_in, "allin"@, "default"@);
    an_action_button_sends(snap, i, all_in, "allin"@, "primary_filled"@);
    an_action_button_sends(snap, i, "跟注 "@ + crate::text::decimal(to_call(snap, i) as nat), "call"@, "primary_filled"@);
}

/// A button that raises sends the amount that stands on it, or all-in where that is
/// everything.
pub proof fn a_raise_button_sends_its_amount(snap: SnapshotView, i: int, to: int)
    requires
        0 <= i < snap.players.len(),
        0 < to <= u64::MAX,
    ensures
        ({
            let b = preset_button(snap, i, to);
            let most = snap.players[i].chips + snap.players[i].bet_in_round;
            &&& to >= most ==> sends_for(snap, i, b, "allin"@)
            &&& to < most ==> sends_for(snap, i, b, "raise"@) && sends(b).get_number("to"@) == Some(to)
        }),
{
    keys_differ();
    let base = action_base(snap, i);
    what_the_base_sends(snap, i);
    let text = if to >= max_to(snap, i) {
        "全押 "@ + crate::text::decimal(max_to(snap, i) as nat)
    } else if to == min_raise_to(snap) {
        "最小 "@ + crate::text::decimal(to as nat)
    } else {
        "加到 "@ + crate::text::decimal(to as nat)
    };
    reveal_with_fuel(JsonView::set_all, 4);
    if to >= max_to(snap, i) {
        let more = JsonView::object().with_text("action"@, "allin"@);
        assert(base.merged(more) == base.set("action"@, JsonView::Text("allin"@)));
        get_after_set(base, "action"@, JsonView::Text("allin"@));
        a_button_sends_its_value(text, base.merged(more), "default"@);
    } else {
        let more = JsonView::object().with_text("action"@, "raise"@).with("to"@, JsonView::Int(to));
        let once = base.set("action"@, JsonView::Text("raise"@));
        assert(base.merged(more) == once.set("to"@, JsonView::Int(to)));
        get_after_set(base, "action"@, JsonView::Text("raise"@));
        get_after_set(once, "to"@, JsonView::Int(to));
        a_button_sends_its_value(text, base.merged(more), "default"@);
    }
}

// ---- pressing them ----

/// Whether the actor presses a button that was made for them, during their turn.
pub open spec fn pressed(action: CardActionView, g: GameView, button: JsonView) -> bool {
    &&& g.wf()
    &&& g.stage.betting()
    &&& 0 < g.hand_count <= u32::MAX
    &&& g.players[g.current_idx].open_id.len() > 0
    &&& action.value == sends(button)
    &&& action.open_id == g.players[g.current_idx].open_id
}

proof fn a_press_is_in_time(action: CardActionView, g: GameView, viewer: Option<Seq<char>>, button: JsonView, id: Seq<char>)
    requires
        pressed(action, g, button),
        sends_for(snapshot_of(g, viewer), g.current_idx, button, id),
    ensures
        in_time(action, g),
        actor_sent(action).len() > 0,
        chat_sent(action) == g.chat_id,
        action.value.get_text("action"@) == Some(id),
{
    let snap = snapshot_of(g, viewer);
    assert(snap.players[g.current_idx].open_id == g.players[g.current_idx].open_id);
}

/// The actor's own buttons are those of moves that the table accepts, and pressing one
/// during one's turn makes that move.
pub proof fn what_is_offered_is_accepted(action: CardActionView, g: GameView, viewer: Option<Seq<char>>, k: int)
    requires
        0 <= k < quick_actions(snapshot_of(g, viewer), g.current_idx).len(),
        pressed(action, g, quick_actions(snapshot_of(g, viewer), g.current_idx)[k]),
        !g.players[g.current_idx].folded,
        !g.players[g.current_idx].all_in,
        !g.players[g.current_idx].sat_out,
    ensures
        ({
            let r = click_of(action, Some(g));
            let row = quick_actions(snapshot_of(g, viewer), g.current_idx);
            &&& r matches ClickView::Act(a, chat) && chat == g.chat_id && g.applied(g.current_idx, a) is Ok
            &&& k == 0 ==> r == ClickView::Act(PlayerAction::Fold, g.chat_id)
            &&& k > 0 && k == row.len() - 1 ==> r == ClickView::Act(PlayerAction::AllIn, g.chat_id)
            &&& k == 1 && row.len() == 3 ==> r == ClickView::Act(
                if g.current_bet > g.players[g.current_idx].bet_in_round { PlayerAction::Call } else { PlayerAction::Check },
                g.chat_id,
            )
        }),
{
    let snap = snapshot_of(g, viewer);
    let i = g.current_idx;
    let row = quick_actions(snap, i);
    assert(snap.players[i].chips == g.players[i].chips && snap.players[i].bet_in_round == g.players[i].bet_in_round);
    assert(g.player_wf(g.players[i]));
    which_actions_are_offered(snap, i);
    let behind = g.current_bet - g.players[i].bet_in_round;
    let id = if k == 0 {
        "fold"@
    } else if k == 2 {
        "allin"@
    } else if behind <= 0 {
        "check"@
    } else if g.players[i].chips <= behind {
        "allin"@
    } else {
        "call"@
    };
    a_press_is_in_time(action, g, viewer, row[k], id);
    buttons_differ();
    each_action_button_does_its_thing(action, g);
}

/// So are the raises: each is one that the table accepts, and pressing it raises to
/// what stands on it.
pub proof fn what_raise_is_offered_is_accepted(action: CardActionView, g: GameView, viewer: Option<Seq<char>>, to: u64)
    requires
        is_preset(
            to as int,
            g.current_bet,
            min_raise_to(snapshot_of(g, viewer)),
            snapshot_of(g, viewer).pot,
            max_to(snapshot_of(g, viewer), g.current_idx),
        ),
        pressed(action, g, preset_button(snapshot_of(g, viewer), g.current_idx, to as int)),
        !g.players[g.current_idx].folded,
        !g.players[g.current_idx].all_in,
        !g.players[g.current_idx].sat_out,
    ensures
        ({
            let p = g.players[g.current_idx];
            let r = click_of(action, Some(g));
            &&& r == ClickView::Act(if to < p.bet_in_round + p.chips { PlayerAction::RaiseTo(to) } else { PlayerAction::AllIn }, g.chat_id)
            &&& r matches ClickView::Act(a, _) && g.applied(g.current_idx, a) is Ok
        }),
{
    let snap = snapshot_of(g, viewer);
    let i = g.current_idx;
    let p = g.players[i];
    assert(snap.players[i].chips == p.chips && snap.players[i].bet_in_round == p.bet_in_round);
    assert(snap.players[i].open_id == p.open_id);
    assert(g.player_wf(p));
    let b = preset_button(snap, i, to as int);
    a_raise_button_sends_its_amount(snap, i, to as int);
    if to < p.bet_in_round + p.chips {
        a_press_is_in_time(action, g, viewer, b, "raise"@);
        crate::game::conduct::a_proper_raise_is_accepted(g, i, to);
    } else {
        a_press_is_in_time(action, g, viewer, b, "allin"@);
    }
    buttons_differ();
    each_action_button_does_its_thing(action, g);
}

} // verus!
