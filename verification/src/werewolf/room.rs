//! The werewolf game of a chat: its players are those who sit at the chat's
//! table, for there is one roster for both games.

use vstd::prelude::*;
use vstd::string::*;
use crate::game::view::{GameView, PlayerView};
use crate::game::Game;
use super::model::{WolfGameView, WolfPlayerView};
use super::table::{board, wolf_newcomer, MAX_WOLF_PLAYERS, MIN_WOLF_PLAYERS};
use super::{Role, WolfError, WolfGame, WolfPlayer};

verus! {

/// Those who sit at the table, as players of the werewolf game.
pub open spec fn roster(players: Seq<PlayerView>) -> Seq<WolfPlayerView> {
    players.map_values(|p: PlayerView| wolf_newcomer(p.open_id, p.name, p.is_ai, p.persona))
}

/// A room with those who sit at the table, in which `played` games were played.
pub open spec fn room_of(table: GameView, played: u32) -> WolfGameView {
    WolfGameView { players: roster(table.players), game_count: played, ..WolfGameView::empty(table.chat_id) }
}

/// Why no game can be opened for the table: either game is being played, or
/// there are too few players or too many.
pub open spec fn open_error(table: GameView, previous: Option<WolfGameView>) -> Option<WolfError> {
    if table.stage.betting() || (previous matches Some(g) && !g.idle()) {
        Some(WolfError::InPlay)
    } else if table.players.len() < MIN_WOLF_PLAYERS || table.players.len() > MAX_WOLF_PLAYERS {
        Some(WolfError::WrongHeadcount)
    } else {
        None
    }
}

pub open spec fn games_played(previous: Option<WolfGameView>) -> u32 {
    match previous {
        Some(g) => g.game_count,
        None => 0,
    }
}

pub open spec fn game_view(game: Option<&WolfGame>) -> Option<WolfGameView> {
    match game {
        Some(g) => Some(g@),
        None => None,
    }
}

fn room(table: &Game, played: u32) -> (r: WolfGame)
    requires
        table@.wf(),
    ensures
        r@ == room_of(table@, played),
        r@.wf(),
{
    let ghost want = roster(table@.players);
    let mut g = WolfGame::new(table.chat_id.clone());
    let ghost empty = g@;
    g.game_count = played;
    let mut i: usize = 0;
    while i < table.players.len()
        invariant
            want == roster(table@.players),
            i <= table.players@.len() == want.len() == table@.players.len(),
            table@.wf(),
            empty == WolfGameView::empty(table@.chat_id),
            g@ == (WolfGameView { players: want.take(i as int), game_count: played, ..empty }),
        decreases want.len() - i,
    {
        let p = &table.players[i];
        assert(table@.players[i as int] == p@);
        let ghost now = g@.players;
        g.players.push(
            WolfPlayer {
                open_id: p.open_id.clone(),
                name: p.name.clone(),
                is_ai: p.is_ai,
                persona: p.persona,
                alive: true,
                role: None,
            },
        );
        proof {
            assert(now == want.take(i as int));
            assert(wolf_newcomer(p@.open_id, p@.name, p@.is_ai, p@.persona) == want[i as int]);
            assert(g@.players =~= now.push(want[i as int]));
            assert(want.take(i + 1) =~= now.push(want[i as int]));
        }
        i = i + 1;
    }
    proof {
        assert(want.take(i as int) =~= want);
        assert forall|k: int, j: int| 0 <= k < j < want.len() implies (#[trigger] g@.players[k]).open_id
            != (#[trigger] g@.players[j]).open_id by {
            assert(table@.players[k].open_id != table@.players[j].open_id);
        }
    }
    g
}

/// Open a game for those who sit at the table, given the chat's last game.
pub fn open_wolf_game(table: &Game, previous: Option<&WolfGame>) -> (r: Result<WolfGame, WolfError>)
    requires
        table@.wf(),
    ensures
        match open_error(table@, game_view(previous)) {
            Some(e) => r is Err && r->Err_0 == e,
            None => r is Ok && r->Ok_0@.wf() && exists|roles: Seq<Role>|
                #![trigger room_of(table@, games_played(game_view(previous))).started(roles)]
                roles.len() == table@.players.len() && roles.to_multiset() == board(
                    table@.players.len(),
                ).to_multiset() && r->Ok_0@ == room_of(table@, games_played(game_view(previous))).started(roles),
        },
{
    if table.stage.is_betting() {
        return Err(WolfError::InPlay);
    }
    let played: u32 = match previous {
        Some(g) => {
            if !g.is_idle() {
                return Err(WolfError::InPlay);
            }
            g.game_count
        },
        None => 0,
    };
    let mut g = room(table, played);
    assert(g@.players.len() == table@.players.len());
    match g.start_game() {
        Ok(()) => Ok(g),
        Err(e) => Err(e),
    }
}

/// Why the chat's poker table is closed, if it is: nobody comes, goes or starts a
/// hand while the werewolf game is played.
pub open spec fn closed_error(game: Option<WolfGameView>) -> Option<WolfError> {
    match game {
        Some(g) => if g.idle() { None } else { Some(WolfError::InPlay) },
        None => None,
    }
}

/// Why the chat's poker table is closed, if it is.
pub fn why_closed(game: Option<&WolfGame>) -> (r: Option<WolfError>)
    ensures
        r == closed_error(game_view(game)),
{
    match game {
        Some(g) => if g.is_idle() { None } else { Some(WolfError::InPlay) },
        None => None,
    }
}

/// A chat plays one game at a time: while a hand is in play no werewolf game is
/// opened, and while a werewolf game is played the table is closed.
pub proof fn one_game_at_a_time(table: GameView, game: WolfGameView)
    ensures
        table.stage.betting() ==> open_error(table, Some(game)) == Some(WolfError::InPlay),
        closed_error(Some(game)) is Some ==> open_error(table, Some(game)) == Some(WolfError::InPlay),
        open_error(table, Some(game)) is None ==> closed_error(Some(game)) is None,
{
}

} // verus!
