//! What the cards show and offer, and to whom.

use vstd::prelude::*;
use vstd::string::*;
use crate::feishu::json::JsonView;
use crate::poker::card::Rank;
use crate::poker::{Card, DeckMode};
use crate::spelling::{a_number_is_read_back, numbers_are_told_apart};
use crate::text::decimal;
use crate::werewolf::WolfStage;
use super::buttons::{a_lobby_button_sends_its_action, lobby_button_of, lobby_buttons_differ, sends};
use super::cards::{
    actor_part, actor_seat, chip_holders, lobby_button, lobby_buttons, lobby_elements, state_card_json, state_elements,
    state_head,
};
use super::clicks::LobbyClick;
use super::snapshot::{PlayerSnapshotView, SnapshotView};
use crate::feishu::cards::button_row_json;
use crate::game::Stage;

verus! {

// ---- the lobby ----

/// Whether a row of buttons has the one for this click.
pub open spec fn offers(row: Seq<JsonView>, click: LobbyClick) -> bool {
    exists|k: int| 0 <= k < row.len() && (#[trigger] sends(row[k])).get_text("action"@) == Some(lobby_button_of(click))
}

proof fn chips_are_held(players: Seq<PlayerSnapshotView>)
    ensures
        chip_holders(players) >= 1 <==> exists|i: int| 0 <= i < players.len() && (#[trigger] players[i]).chips > 0,
        chip_holders(players) >= 2 <==> exists|i: int, j: int|
            0 <= i < j < players.len() && (#[trigger] players[i]).chips > 0 && (#[trigger] players[j]).chips > 0,
    decreases players.len(),
{
    if players.len() > 0 {
        let rest = players.drop_last();
        let last = players.len() - 1;
        chips_are_held(rest);
        assert(players[last] == players.last());
        if chip_holders(rest) >= 1 {
            let i = choose|i: int| 0 <= i < rest.len() && (#[trigger] rest[i]).chips > 0;
            assert(players[i] == rest[i]);
            if players.last().chips > 0 {
                assert(players[i].chips > 0 && players[last].chips > 0);
            }
        }
        if chip_holders(rest) >= 2 {
            let (i, j) = choose|i: int, j: int|
                0 <= i < j < rest.len() && (#[trigger] rest[i]).chips > 0 && (#[trigger] rest[j]).chips > 0;
            assert(players[i] == rest[i] && players[j] == rest[j]);
        }
        if exists|i: int| 0 <= i < players.len() && (#[trigger] players[i]).chips > 0 {
            let i = choose|i: int| 0 <= i < players.len() && (#[trigger] players[i]).chips > 0;
            if i < last {
                assert(rest[i] == players[i]);
            }
        }
        if exists|i: int, j: int| 0 <= i < j < players.len() && (#[trigger] players[i]).chips > 0 && (#[trigger] players[j]).chips > 0 {
            let (i, j) = choose|i: int, j: int|
                0 <= i < j < players.len() && (#[trigger] players[i]).chips > 0 && (#[trigger] players[j]).chips > 0;
            assert(rest[i] == players[i]);
            if j < last {
                assert(rest[j] == players[j]);
            }
        }
    }
}

/// The row with one more button offers what it offered, and that one.
proof fn one_more_button(row: Seq<JsonView>, chat_id: Seq<char>, text: Seq<char>, added: LobbyClick, style: Seq<char>)
    ensures
        forall|c: LobbyClick| #[trigger] offers(row.push(lobby_button(chat_id, text, lobby_button_of(added), style)), c) <==> offers(row, c)
            || c == added,
{
    let b = lobby_button(chat_id, text, lobby_button_of(added), style);
    let more = row.push(b);
    a_lobby_button_sends_its_action(chat_id, text, added, style);
    lobby_buttons_differ();
    assert forall|c: LobbyClick| #[trigger] offers(more, c) <==> offers(row, c) || c == added by {
        if offers(more, c) {
            let k = choose|k: int| 0 <= k < more.len() && (#[trigger] sends(more[k])).get_text("action"@) == Some(lobby_button_of(c));
            if k < row.len() {
                assert(more[k] == row[k]);
                assert(sends(row[k]).get_text("action"@) == Some(lobby_button_of(c)));
            } else {
                assert(more[k] == b);
                if c != added {
                    assert(lobby_button_of(c) != lobby_button_of(added));
                }
            }
        }
        if offers(row, c) {
            let k = choose|k: int| 0 <= k < row.len() && (#[trigger] sends(row[k])).get_text("action"@) == Some(lobby_button_of(c));
            assert(more[k] == row[k]);
            assert(sends(more[k]).get_text("action"@) == Some(lobby_button_of(c)));
        }
        if c == added {
            assert(more[row.len() as int] == b);
            assert(sends(more[row.len() as int]).get_text("action"@) == Some(lobby_button_of(c)));
        }
    }
}

/// What the lobby offers: a seat, always; AI players where there is a model; leaving and
/// resetting where somebody sits; poker where two have chips; and werewolf for nine to
/// twelve.
pub proof fn what_the_lobby_offers(snap: SnapshotView, ai: bool)
    ensures
        ({
            let row = lobby_buttons(snap, ai);
            let two = exists|i: int, j: int|
                0 <= i < j < snap.players.len() && (#[trigger] snap.players[i]).chips > 0 && (#[trigger] snap.players[j]).chips > 0;
            &&& offers(row, LobbyClick::Join)
            &&& offers(row, LobbyClick::AddAi) <==> ai
            &&& offers(row, LobbyClick::RemoveAi) <==> ai
            &&& offers(row, LobbyClick::Leave) <==> snap.players.len() > 0
            &&& offers(row, LobbyClick::Reset) <==> snap.players.len() > 0
            &&& offers(row, LobbyClick::Start(DeckMode::Standard)) <==> two
            &&& offers(row, LobbyClick::Start(DeckMode::ShortDeck)) <==> two
            &&& offers(row, LobbyClick::StartWolf) <==> 9 <= snap.players.len() <= 12
        }),
{
    let chat_id = snap.chat_id;
    chips_are_held(snap.players);
    let none: Seq<JsonView> = Seq::empty();
    assert forall|c: LobbyClick| !#[trigger] offers(none, c) by {}
    one_more_button(none, chat_id, "加入"@, LobbyClick::Join, "primary"@);
    let join = seq![lobby_button(chat_id, "加入"@, "join_lobby"@, "primary"@)];
    assert(join =~= none.push(lobby_button(chat_id, "加入"@, lobby_button_of(LobbyClick::Join), "primary"@)));
    one_more_button(join, chat_id, "加入 AI"@, LobbyClick::AddAi, "default"@);
    let more = join.push(lobby_button(chat_id, "加入 AI"@, "add_ai_lobby"@, "default"@));
    one_more_button(more, chat_id, "移除 AI"@, LobbyClick::RemoveAi, "default"@);
    let seats = if ai { more.push(lobby_button(chat_id, "移除 AI"@, "remove_ai_lobby"@, "default"@)) } else { join };
    one_more_button(seats, chat_id, "离开"@, LobbyClick::Leave, "default"@);
    let go = seats.push(lobby_button(chat_id, "离开"@, "leave_lobby"@, "default"@));
    one_more_button(go, chat_id, "重置"@, LobbyClick::Reset, "default"@);
    let leave = if snap.players.len() > 0 { go.push(lobby_button(chat_id, "重置"@, "reset_lobby"@, "default"@)) } else { seats };
    one_more_button(leave, chat_id, "🎰 开始德州"@, LobbyClick::Start(DeckMode::Standard), "primary"@);
    let start = leave.push(lobby_button(chat_id, "🎰 开始德州"@, "start_lobby"@, "primary"@));
    one_more_button(start, chat_id, "🎰 短牌德州"@, LobbyClick::Start(DeckMode::ShortDeck), "primary"@);
    let poker = if chip_holders(snap.players) >= 2 {
        start.push(lobby_button(chat_id, "🎰 短牌德州"@, "start_short_lobby"@, "primary"@))
    } else {
        leave
    };
    one_more_button(poker, chat_id, "🐺 开始狼人杀"@, LobbyClick::StartWolf, "primary"@);
}

/// The lobby has its buttons while neither game is being played, and none meanwhile.
pub proof fn when_the_lobby_has_buttons(snap: SnapshotView, ai: bool, wolf: Option<WolfStage>)
    ensures
        ({
            let hand = snap.stage != Stage::Lobby && snap.stage != Stage::Ended;
            let game = wolf matches Some(s) && s != WolfStage::Lobby && s != WolfStage::Ended;
            let row = button_row_json(lobby_buttons(snap, ai));
            &&& !hand && !game ==> lobby_elements(snap, ai, wolf).contains(row)
            &&& hand || game ==> lobby_elements(snap, ai, wolf) == lobby_elements(snap, !ai, wolf)
        }),
{
    let all = lobby_elements(snap, ai, wolf);
    let hand = snap.stage != Stage::Lobby && snap.stage != Stage::Ended;
    let game = wolf matches Some(s) && s != WolfStage::Lobby && s != WolfStage::Ended;
    if !hand && !game {
        assert(all[all.len() - 2] == button_row_json(lobby_buttons(snap, ai)));
    }
}

// ---- the table ----

/// What everybody sees of the table shows nobody's cards.
pub proof fn the_public_card_shows_no_hand(snap: SnapshotView, other: SnapshotView, id: Seq<char>)
    requires
        other == (SnapshotView { viewer_hole: other.viewer_hole, ..snap }),
    ensures
        state_card_json(snap, false, id) == state_card_json(other, false, id),
{
    assert(state_head(snap) =~= state_head(other)) by {
        let a = Seq::new(snap.players.len(), |i: int| super::cards::state_line(snap, i));
        let b = Seq::new(other.players.len(), |i: int| super::cards::state_line(other, i));
        assert(a =~= b);
    }
    assert(state_elements(snap, false, id) =~= state_elements(other, false, id));
}

/// The action card is that of the player whose turn it is.
pub proof fn the_action_card_is_the_actors(snap: SnapshotView, i: int, id: Seq<char>)
    requires
        0 <= i < snap.players.len(),
        snap.current_open_id == Some(snap.players[i].open_id),
        forall|a: int, b: int| 0 <= a < b < snap.players.len() ==> (#[trigger] snap.players[a]).open_id != (#[trigger] snap.players[b]).open_id,
    ensures
        state_elements(snap, true, id) == state_head(snap) + actor_part(snap, i, id),
{
    actor_found(snap.players, i, 0);
}

proof fn actor_found(players: Seq<PlayerSnapshotView>, i: int, from: int)
    requires
        0 <= from <= i < players.len(),
        forall|a: int, b: int| 0 <= a < b < players.len() ==> (#[trigger] players[a]).open_id != (#[trigger] players[b]).open_id,
    ensures
        actor_seat(players, players[i].open_id, from) == i,
    decreases i - from,
{
    if from < i {
        assert(players[from].open_id != players[i].open_id);
        actor_found(players, i, from + 1);
    }
}

// ---- cards and actions ----

/// Different cards have different names.
pub proof fn cards_are_told_apart(a: Card, b: Card)
    requires
        a.valid(),
        b.valid(),
        a.name() == b.name(),
    ensures
        a == b,
{
    glyphs_differ();
    let x = a.rank.name();
    let y = b.rank.name();
    let s = a.name();
    assert(s.last() == a.suit.glyph()[0]);
    assert(s.last() == b.suit.glyph()[0]);
    assert(a.suit == b.suit);
    assert(x =~= s.take(s.len() - 1));
    assert(y =~= b.name().take(b.name().len() - 1));
    ranks_differ(a.rank, b.rank);
}

proof fn glyphs_differ()
    ensures
        "♠"@.len() == 1 && "♥"@.len() == 1 && "♦"@.len() == 1 && "♣"@.len() == 1,
        "♠"@[0] == '♠' && "♥"@[0] == '♥' && "♦"@[0] == '♦' && "♣"@[0] == '♣',
{
    reveal_strlit("♠");
    reveal_strlit("♥");
    reveal_strlit("♦");
    reveal_strlit("♣");
}

proof fn ranks_differ(a: Rank, b: Rank)
    requires
        2 <= a.0 <= 14,
        2 <= b.0 <= 14,
        a.name() == b.name(),
    ensures
        a == b,
{
    reveal_strlit("A");
    reveal_strlit("K");
    reveal_strlit("Q");
    reveal_strlit("J");
    assert("A"@[0] == 'A' && "K"@[0] == 'K' && "Q"@[0] == 'Q' && "J"@[0] == 'J');
    a_number_is_read_back(a.0 as nat);
    a_number_is_read_back(b.0 as nat);
    assert('0' <= decimal(a.0 as nat)[0] <= '9' && '0' <= decimal(b.0 as nat)[0] <= '9');
    if a.0 <= 10 && b.0 <= 10 {
        numbers_are_told_apart(a.0 as nat, b.0 as nat);
    }
}

} // verus!
