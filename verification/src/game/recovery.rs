//! A hand that a restart broke off.

use vstd::prelude::*;
use super::deal::all_fresh;
use super::table::{live_seats, money, money_bounds};
use super::view::{GameView, PlayerView};
use super::{Game, Stage};

verus! {

/// A player who gets their bets back and hands in their cards.
pub open spec fn refunded(p: PlayerView) -> PlayerView {
    PlayerView {
        chips: p.chips + p.total_bet,
        hole: Seq::empty(),
        bet_in_round: 0,
        total_bet: 0,
        folded: false,
        all_in: false,
        acted_this_round: false,
        ..p
    }
}

impl GameView {
    /// Whether every player's bets can be added to their chips again.
    pub open spec fn refundable(self) -> bool {
        forall|i: int| 0 <= i < self.players.len() ==> (#[trigger] self.players[i]).chips + self.players[i].total_bet
            <= u64::MAX
    }

    /// The table with the hand in play called off: the bets go back and the
    /// board is cleared. Between hands there is nothing to call off.
    pub open spec fn called_off(self) -> GameView {
        if !self.stage.idle() {
            GameView {
                players: self.players.map_values(|p: PlayerView| refunded(p)),
                stage: Stage::Lobby,
                community: Seq::empty(),
                current_bet: 0,
                ..self
            }
        } else {
            self
        }
    }
}

proof fn refunds_keep_money(players: Seq<PlayerView>)
    ensures
        money(players.map_values(|p: PlayerView| refunded(p))) == money(players),
    decreases players.len(),
{
    let back = players.map_values(|p: PlayerView| refunded(p));
    if players.len() > 0 {
        refunds_keep_money(players.drop_last());
        assert(back.drop_last() =~= players.drop_last().map_values(|p: PlayerView| refunded(p)));
    }
}

/// Calling a hand off costs nobody a chip.
pub proof fn a_called_off_hand_is_refunded(g: GameView)
    ensures
        g.wf() ==> g.called_off().wf(),
        g.called_off().stage.idle(),
        money(g.called_off().players) == money(g.players),
        g.called_off().players.len() == g.players.len(),
        !g.stage.idle() ==> forall|i: int| 0 <= i < g.players.len() ==> (#[trigger] g.called_off().players[i]).chips
            == g.players[i].chips + g.players[i].total_bet,
        g.stage.idle() ==> g.called_off() == g,
{
    if !g.stage.idle() {
        refunds_keep_money(g.players);
    }
}

/// At a table in order everybody's bets can be given back.
pub proof fn a_table_in_order_is_refundable(g: GameView)
    requires
        g.wf(),
    ensures
        g.refundable(),
{
    money_bounds(g.players);
}

proof fn live_with_chips(players: Seq<PlayerView>)
    requires
        forall|i: int| 0 <= i < players.len() && (#[trigger] players[i]).live() ==> players[i].chips + players[i].total_bet > 0,
    ensures
        live_seats(all_fresh(players.map_values(|p: PlayerView| refunded(p)))).len() >= live_seats(players).len(),
    decreases players.len(),
{
    let back = all_fresh(players.map_values(|p: PlayerView| refunded(p)));
    if players.len() > 0 {
        let rest = players.drop_last();
        assert forall|i: int| 0 <= i < rest.len() && (#[trigger] rest[i]).live() implies rest[i].chips + rest[i].total_bet > 0 by {
            assert(rest[i] == players[i]);
        }
        live_with_chips(rest);
        assert(back.drop_last() =~= all_fresh(rest.map_values(|p: PlayerView| refunded(p))));
        assert(players.last() == players[players.len() - 1]);
    }
}

/// Once a hand has been called off, the next can start.
pub proof fn the_next_hand_can_start(g: GameView)
    requires
        g.wf(),
        g.stage.betting(),
    ensures
        g.called_off().start_error() is None,
{
    assert forall|i: int| 0 <= i < g.players.len() && (#[trigger] g.players[i]).live() implies g.players[i].chips
        + g.players[i].total_bet > 0 by {
        assert(g.player_wf(g.players[i]));
    }
    live_with_chips(g.players);
}

impl Game {
    /// Call the hand in play off.
    pub fn call_off(&mut self)
        requires
            old(self)@.refundable(),
        ensures
            final(self)@ == old(self)@.called_off(),
            old(self)@.wf() ==> final(self)@.wf(),
    {
        let ghost before = self@;
        proof {
            a_called_off_hand_is_refunded(before);
        }
        if self.stage.is_idle() {
            return;
        }
        let mut i: usize = 0;
        while i < self.players.len()
            invariant
                i <= self.players@.len(),
                self.players@.len() == before.players.len(),
                self@ == (GameView { players: self@.players, ..before }),
                forall|k: int| 0 <= k < i ==> (#[trigger] self.players@[k])@ == refunded(before.players[k]),
                forall|k: int| i <= k < before.players.len() ==> (#[trigger] self.players@[k])@ == before.players[k],
                forall|k: int| 0 <= k < before.players.len() ==> (#[trigger] before.players[k]).chips
                    + before.players[k].total_bet <= u64::MAX,
            decreases self.players@.len() - i,
        {
            assert(self.players@[i as int]@ == before.players[i as int]);
            let back = self.players[i].chips + self.players[i].total_bet;
            self.players[i].chips = back;
            self.players[i].hole = Vec::new();
            self.players[i].bet_in_round = 0;
            self.players[i].total_bet = 0;
            self.players[i].folded = false;
            self.players[i].all_in = false;
            self.players[i].acted_this_round = false;
            assert(self.players@[i as int]@ =~= refunded(before.players[i as int]));
            i = i + 1;
        }
        self.stage = Stage::Lobby;
        self.community = Vec::new();
        self.current_bet = 0;
        assert(self@.players =~= before.called_off().players);
        assert(self@ =~= before.called_off());
    }
}

} // verus!
