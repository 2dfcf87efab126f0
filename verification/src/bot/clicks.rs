//! What a click on one of the poker cards asks for.

use vstd::prelude::*;
use vstd::string::*;
use crate::feishu::events::{CardAction, CardActionView};
use crate::feishu::json::or_text;
use crate::game::table::money_bounds;
use crate::game::view::GameView;
use crate::game::{ActOutcome, Game, GameError, PlayerAction};
use crate::poker::DeckMode;
use crate::text::{number_of, parse_number, same_text, trim, trimmed};
use super::snapshot::{snapshot, snapshot_of, GameSnapshot};

verus! {

/// The buttons of the lobby card. Anyone in the chat can click them.
#[derive(Debug, Clone, Copy, PartialEq, Eq, Structural)]
pub enum LobbyClick {
    Join,
    Leave,
    Start(DeckMode),
    StartWolf,
    AddAi,
    RemoveAi,
    Reset,
}

/// What a click asks for.
#[derive(Debug)]
pub enum Click {
    /// Nothing.
    Nothing,
    /// One of the lobby's buttons, in the chat with this id.
    Lobby(LobbyClick, String),
    /// The click is refused with this text.
    Refused(String),
    /// A player's action, in the chat with this id.
    Act(PlayerAction, String),
}

#[verifier::ext_equal]
pub enum ClickView {
    Nothing,
    Lobby(LobbyClick, Seq<char>),
    Refused(Seq<char>),
    Act(PlayerAction, Seq<char>),
}

impl View for Click {
    type V = ClickView;

    open spec fn view(&self) -> ClickView {
        match *self {
            Click::Nothing => ClickView::Nothing,
            Click::Lobby(c, chat_id) => ClickView::Lobby(c, chat_id@),
            Click::Refused(s) => ClickView::Refused(s@),
            Click::Act(a, chat_id) => ClickView::Act(a, chat_id@),
        }
    }
}

/// The chat that a click belongs to.
pub open spec fn chat_of(action: CardActionView) -> Seq<char> {
    or_text(action.value.get_text("chat_id"@), action.open_chat_id)
}

/// The chat that a click belongs to.
pub fn click_chat(action: &CardAction) -> (r: String)
    ensures
        r@ == chat_of(action@),
{
    match action.value.get_str("chat_id") {
        Some(s) => s.to_owned(),
        None => action.open_chat_id.clone(),
    }
}

/// Why a click comes too late: it is from an earlier hand, from a card that is
/// no longer the actor's, or from a hand that is over.
pub open spec fn stale(action: CardActionView, g: GameView) -> Option<Seq<char>> {
    let actor = or_text(action.value.get_text("actor"@), ""@);
    let hand = match action.value.get_number("hand"@) {
        Some(n) => n,
        None => 0,
    };
    if hand != 0 && hand % 0x1_0000_0000 != g.hand_count {
        Some("这是上一局的按钮"@)
    } else if actor.len() == 0 {
        None
    } else if g.stage.betting() {
        if g.current_idx < g.players.len() && g.players[g.current_idx].open_id != actor {
            Some("这张卡片已失效 · 最新行动卡在下方"@)
        } else {
            None
        }
    } else {
        Some("本局已结束 · 点大厅卡 [开局] 开始新一局"@)
    }
}

/// The action that a button stands for, or why there is none.
pub open spec fn requested(id: Seq<char>, action: CardActionView) -> ClickView {
    let chat = chat_of(action);
    if id == "fold"@ {
        ClickView::Act(PlayerAction::Fold, chat)
    } else if id == "check"@ {
        ClickView::Act(PlayerAction::Check, chat)
    } else if id == "call"@ {
        ClickView::Act(PlayerAction::Call, chat)
    } else if id == "allin"@ {
        ClickView::Act(PlayerAction::AllIn, chat)
    } else if id == "raise"@ {
        match action.value.get_number("to"@) {
            Some(to) => if to == 0 {
                ClickView::Refused("加注金额无效"@)
            } else {
                ClickView::Act(PlayerAction::RaiseTo(to as u64), chat)
            },
            None => ClickView::Refused("加注金额无效"@),
        }
    } else if id == "raise_custom"@ {
        match number_of(trimmed(or_text(action.form_value.get_text("raise_to"@), ""@))) {
            Some(to) => if to > 0 {
                ClickView::Act(PlayerAction::RaiseTo(to as u64), chat)
            } else {
                ClickView::Refused("请输入有效的加注金额"@)
            },
            None => ClickView::Refused("请输入有效的加注金额"@),
        }
    } else {
        ClickView::Nothing
    }
}

/// The button of the lobby with this id.
pub open spec fn lobby_click(id: Seq<char>) -> Option<LobbyClick> {
    if id == "join_lobby"@ {
        Some(LobbyClick::Join)
    } else if id == "leave_lobby"@ {
        Some(LobbyClick::Leave)
    } else if id == "start_lobby"@ {
        Some(LobbyClick::Start(DeckMode::Standard))
    } else if id == "start_short_lobby"@ {
        Some(LobbyClick::Start(DeckMode::ShortDeck))
    } else if id == "start_wolf_lobby"@ {
        Some(LobbyClick::StartWolf)
    } else if id == "add_ai_lobby"@ {
        Some(LobbyClick::AddAi)
    } else if id == "remove_ai_lobby"@ {
        Some(LobbyClick::RemoveAi)
    } else if id == "reset_lobby"@ {
        Some(LobbyClick::Reset)
    } else {
        None
    }
}

fn read_lobby_click(id: &str) -> (r: Option<LobbyClick>)
    ensures
        r == lobby_click(id@),
{
    if same_text(id, "join_lobby") {
        Some(LobbyClick::Join)
    } else if same_text(id, "leave_lobby") {
        Some(LobbyClick::Leave)
    } else if same_text(id, "start_lobby") {
        Some(LobbyClick::Start(DeckMode::Standard))
    } else if same_text(id, "start_short_lobby") {
        Some(LobbyClick::Start(DeckMode::ShortDeck))
    } else if same_text(id, "start_wolf_lobby") {
        Some(LobbyClick::StartWolf)
    } else if same_text(id, "add_ai_lobby") {
        Some(LobbyClick::AddAi)
    } else if same_text(id, "remove_ai_lobby") {
        Some(LobbyClick::RemoveAi)
    } else if same_text(id, "reset_lobby") {
        Some(LobbyClick::Reset)
    } else {
        None
    }
}

/// What a click asks for, given the chat's table if it has one.
pub open spec fn click_of(action: CardActionView, table: Option<GameView>) -> ClickView {
    match action.value.get_text("action"@) {
        None => ClickView::Nothing,
        Some(id) => {
            let actor = or_text(action.value.get_text("actor"@), ""@);
            let late = match table {
                Some(g) => stale(action, g),
                None => None,
            };
            if lobby_click(id) is Some {
                ClickView::Lobby(lobby_click(id)->0, chat_of(action))
            } else if late is Some {
                ClickView::Refused(late->0)
            } else if actor.len() > 0 && action.open_id != actor {
                ClickView::Refused("现在不是你的回合"@)
            } else {
                requested(id, action)
            }
        },
    }
}

fn find_stale(action: &CardAction, g: &Game) -> (r: Option<&'static str>)
    ensures
        match r {
            Some(s) => stale(action@, g@) == Some(s@),
            None => stale(action@, g@) is None,
        },
{
    let actor = match action.value.get_str("actor") {
        Some(s) => s,
        None => "",
    };
    let hand: u64 = match action.value.get_u64("hand") {
        Some(n) => n,
        None => 0,
    };
    assert(hand as u32 == hand % 0x1_0000_0000) by (bit_vector);
    if hand != 0 && hand as u32 != g.hand_count {
        return Some("这是上一局的按钮");
    }
    if actor.unicode_len() == 0 {
        return None;
    }
    if g.stage.is_betting() {
        match g.current_player_open_id() {
            Some(current) => {
                if !same_text(current, actor) {
                    return Some("这张卡片已失效 · 最新行动卡在下方");
                }
            },
            None => {},
        }
        None
    } else {
        Some("本局已结束 · 点大厅卡 [开局] 开始新一局")
    }
}

fn read_request(id: &str, action: &CardAction) -> (r: Click)
    ensures
        r@ == requested(id@, action@),
{
    if same_text(id, "fold") {
        Click::Act(PlayerAction::Fold, click_chat(action))
    } else if same_text(id, "check") {
        Click::Act(PlayerAction::Check, click_chat(action))
    } else if same_text(id, "call") {
        Click::Act(PlayerAction::Call, click_chat(action))
    } else if same_text(id, "allin") {
        Click::Act(PlayerAction::AllIn, click_chat(action))
    } else if same_text(id, "raise") {
        match action.value.get_u64("to") {
            Some(to) => if to == 0 {
                Click::Refused("加注金额无效".to_owned())
            } else {
                Click::Act(PlayerAction::RaiseTo(to), click_chat(action))
            },
            None => Click::Refused("加注金额无效".to_owned()),
        }
    } else if same_text(id, "raise_custom") {
        // Form-submit button — the value carries the action id, the typed
        // amount lives in form_value.raise_to (a string).
        let raw = match action.form_value.get_str("raise_to") {
            Some(s) => s,
            None => "",
        };
        match parse_number(trim(raw)) {
            Some(to) => if to > 0 {
                Click::Act(PlayerAction::RaiseTo(to), click_chat(action))
            } else {
                Click::Refused("请输入有效的加注金额".to_owned())
            },
            None => Click::Refused("请输入有效的加注金额".to_owned()),
        }
    } else {
        Click::Nothing
    }
}

/// What a click asks for, given the chat's table if it has one. That a click
/// comes too late is checked before who clicked, so that an old card gives a
/// clear answer rather than one that reads as a lack of authority.
pub fn read_click(action: &CardAction, table: Option<&Game>) -> (r: Click)
    ensures
        r@ == click_of(
            action@,
            match table {
                Some(g) => Some(g@),
                None => None,
            },
        ),
{
    let id = match action.value.get_str("action") {
        Some(s) => s,
        None => {
            return Click::Nothing;
        },
    };
    if let Some(c) = read_lobby_click(id) {
        return Click::Lobby(c, click_chat(action));
    }
    if let Some(g) = table {
        if let Some(s) = find_stale(action, g) {
            return Click::Refused(s.to_owned());
        }
    }
    // Someone other than the rendered actor clicked a currently valid card.
    let actor = match action.value.get_str("actor") {
        Some(s) => s,
        None => "",
    };
    if actor.unicode_len() > 0 && !same_text(action.open_id.as_str(), actor) {
        return Click::Refused("现在不是你的回合".to_owned());
    }
    read_request(id, action)
}

/// Let the player act, and take the snapshot that the announcements are
/// rendered from.
pub fn play(game: &mut Game, open_id: &str, action: PlayerAction) -> (r: Result<(ActOutcome, GameSnapshot), GameError>)
    requires
        old(game)@.wf(),
    ensures
        final(game)@.wf(),
        match old(game)@.act_result(open_id@, action) {
            Err(e) => r is Err && r->Err_0 == e && final(game)@ == old(game)@,
            Ok((g, o)) => r is Ok && final(game)@ == g && r->Ok_0.0@ == o && r->Ok_0.1@ == snapshot_of(g, None),
        },
{
    match game.act(open_id, action) {
        Ok(outcome) => {
            proof {
                money_bounds(game@.players);
            }
            let snap = snapshot(game);
            Ok((outcome, snap))
        },
        Err(e) => Err(e),
    }
}

/// A click on an actor's card by anybody else, or at another time than the
/// actor's turn, never leads to an action.
pub proof fn only_the_actor_acts(action: CardActionView, g: GameView, a: PlayerAction, chat: Seq<char>)
    requires
        g.table_wf(),
        g.stage.betting() ==> g.current_idx < g.players.len(),
        or_text(action.value.get_text("actor"@), ""@).len() > 0,
        click_of(action, Some(g)) == ClickView::Act(a, chat),
    ensures
        g.stage.betting(),
        action.open_id == or_text(action.value.get_text("actor"@), ""@),
        action.open_id == g.players[g.current_idx].open_id,
{
}

} // verus!
