//! Who may sit down, leave or be removed, and what becomes of the seats.

use vstd::prelude::*;
use super::recovery::refunded;
use super::table::{last_ai, last_ai_facts, seat_of, seat_of_facts};
use super::view::{GameView, PlayerView};
use super::{GameError, Persona, Stage, MAX_PLAYERS, STARTING_CHIPS};

verus! {

/// Whether no hand is being played.
pub open spec fn between_hands(g: GameView) -> bool {
    g.stage == Stage::Lobby || g.stage == Stage::Ended
}

/// Whether somebody has the id.
pub open spec fn has_seat(g: GameView, open_id: Seq<char>) -> bool {
    exists|i: int| 0 <= i < g.players.len() && (#[trigger] g.players[i]).open_id == open_id
}

/// Anybody may sit down between hands who has no seat yet, while there is one. They
/// sit behind the others, with the starting chips and nothing else.
pub proof fn who_may_sit_down(g: GameView, open_id: Seq<char>, name: Seq<char>, is_ai: bool, persona: Option<Persona>)
    ensures
        g.join_error(open_id) == (if !between_hands(g) {
            Some(GameError::JoinDuringHand)
        } else if has_seat(g, open_id) {
            Some(GameError::AlreadySeated)
        } else if g.players.len() >= MAX_PLAYERS {
            Some(GameError::TableFull)
        } else {
            None
        }),
        ({
            let h = g.joined(open_id, name, is_ai, persona);
            let p = h.players[g.players.len() as int];
            &&& h == (GameView { players: h.players, ..g })
            &&& h.players.len() == g.players.len() + 1
            &&& forall|i: int| 0 <= i < g.players.len() ==> #[trigger] h.players[i] == g.players[i]
            &&& p.open_id == open_id && p.name == name && p.is_ai == is_ai && p.persona == persona
            &&& p.chips == STARTING_CHIPS
            &&& p.hole.len() == 0 && p.bet_in_round == 0 && p.total_bet == 0
            &&& !p.folded && !p.all_in && !p.acted_this_round && !p.sat_out
        }),
{
}

/// Whoever is seated may leave between hands. Their seat is gone; the others keep
/// theirs, in order and with their chips.
pub proof fn who_may_leave(g: GameView, open_id: Seq<char>, i: int)
    requires
        g.wf(),
        0 <= i < g.players.len(),
        g.players[i].open_id == open_id,
    ensures
        g.leave_error(open_id) == (if between_hands(g) { None } else { Some(GameError::LeaveDuringHand) }),
        between_hands(g) ==> g.left(open_id) == (GameView { players: g.players.remove(i), ..g }),
{
    assert(g.seated(open_id));
    if between_hands(g) {
        super::laws::leaving_takes_one_seat(g, open_id);
        seat_of_facts(g.players, open_id, 0);
        let j = seat_of(g.players, open_id, 0)->0;
        if j < i {
            assert(g.players[j].open_id != g.players[i].open_id);
        } else if i < j {
            assert(g.players[i].open_id != g.players[j].open_id);
        }
    }
}

/// Whoever has no seat cannot leave.
pub proof fn strangers_cannot_leave(g: GameView, open_id: Seq<char>)
    requires
        !has_seat(g, open_id),
    ensures
        g.leave_error(open_id) == Some(if between_hands(g) { GameError::NotSeated } else { GameError::LeaveDuringHand }),
{
}

/// Between hands the AI player that sits furthest behind can be removed, and nobody
/// else goes.
pub proof fn the_last_ai_goes(g: GameView)
    ensures
        g.remove_ai_error() is None <==> between_hands(g) && exists|i: int| 0 <= i < g.players.len() && (#[trigger] g.players[i]).is_ai,
        !between_hands(g) ==> g.remove_ai_error() == Some(GameError::RemoveAiDuringHand),
        between_hands(g) && g.remove_ai_error() is Some ==> g.remove_ai_error() == Some(GameError::NoAi),
        g.remove_ai_error() is None ==> exists|i: int|
            {
                &&& 0 <= i < g.players.len()
                &&& (#[trigger] g.players[i]).is_ai
                &&& forall|j: int| i < j < g.players.len() ==> !(#[trigger] g.players[j]).is_ai
                &&& g.ai_removed() == (GameView { players: g.players.remove(i), ..g })
            },
{
    last_ai_facts(g.players);
    let i = last_ai(g.players);
    if i >= 0 {
        assert(g.players[i].is_ai);
    }
}

/// A seat is found by its id.
pub proof fn a_seat_is_found_by_its_id(g: GameView, open_id: Seq<char>, i: int)
    requires
        g.wf(),
    ensures
        seat_of(g.players, open_id, 0) == Some(i) <==> 0 <= i < g.players.len() && g.players[i].open_id == open_id,
{
    seat_of_facts(g.players, open_id, 0);
    match seat_of(g.players, open_id, 0) {
        Some(j) => {
            if 0 <= i < g.players.len() && g.players[i].open_id == open_id {
                if j < i {
                    assert(g.players[j].open_id != g.players[i].open_id);
                } else if i < j {
                    assert(g.players[i].open_id != g.players[j].open_id);
                }
            }
        },
        None => {},
    }
}

/// A hand that is called off gives every player back what they bet and takes their
/// cards away; the table is back in the lobby, and who sits there stays.
pub proof fn a_hand_called_off_leaves_no_trace(g: GameView, i: int)
    requires
        !between_hands(g),
        0 <= i < g.players.len(),
    ensures
        ({
            let h = g.called_off();
            &&& h.stage == Stage::Lobby
            &&& h.community.len() == 0
            &&& h.current_bet == 0
            &&& h.players.len() == g.players.len()
            &&& h.players[i] == (PlayerView {
                chips: g.players[i].chips + g.players[i].total_bet,
                total_bet: 0,
                bet_in_round: 0,
                hole: Seq::empty(),
                folded: false,
                all_in: false,
                acted_this_round: false,
                ..g.players[i]
            })
            &&& h.dealer_idx == g.dealer_idx
            &&& h.hand_count == g.hand_count
            &&& h.small_blind == g.small_blind
            &&& h.big_blind == g.big_blind
        }),
{
    assert(g.called_off().players[i] == refunded(g.players[i]));
}

} // verus!
