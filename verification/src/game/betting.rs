//! The betting rounds: what a player's action does, and what follows from it.

use vstd::prelude::*;
use crate::poker::Card;
use super::deal::{holes_same, live_seats_facts, live_seats_same, paid_facts, seek, seek_facts, seek_finds};
use super::showdown::{
    all_bets_cleared, enriched, money_is_stacks_and_bets, paid_out, showdown_keeps_the_money, stacks_update,
};
use super::table::{
    bets, bets_same, bettors, live_seats, money, money_bounds, money_same, money_update, seat_of, seat_of_facts,
};
use super::view::{reveal_view, GameView, OutcomeView, PlayerView};
use super::{
    ActOutcome, ActionKind, ActionLogEntry, Game, GameError, PlayerAction, Stage, MAX_PLAYERS,
};

verus! {

/// Still in the hand and with chips to bet.
pub open spec fn wants_bettor() -> spec_fn(PlayerView) -> bool {
    |p: PlayerView| p.can_bet()
}

/// Able to bet and either not yet asked this round or behind the current bet.
pub open spec fn wants_turn(current_bet: int) -> spec_fn(PlayerView) -> bool {
    |p: PlayerView| p.can_bet() && (!p.acted_this_round || p.bet_in_round < current_bet)
}

/// A player who has to be asked again, unless the raise is theirs or they are
/// out of the betting.
pub open spec fn asked_again(p: PlayerView, is_raiser: bool) -> PlayerView {
    if is_raiser || p.folded || p.all_in || p.sat_out {
        p
    } else {
        PlayerView { acted_this_round: false, ..p }
    }
}

pub open spec fn all_asked_again(players: Seq<PlayerView>, raiser: int) -> Seq<PlayerView> {
    Seq::new(players.len(), |i: int| asked_again(players[i], i == raiser))
}

impl GameView {
    /// The table after seat `raiser` has brought the bet to `target`.
    pub open spec fn raised(self, raiser: int, target: int, min_raise: int) -> GameView {
        GameView {
            current_bet: target,
            min_raise,
            players: all_asked_again(self.players, raiser),
            ..self
        }
    }

    /// A raise to the big blind on an empty board is a bet.
    pub open spec fn raise_kind(self, target: int) -> ActionKind {
        if self.community.len() == 0 && target == self.big_blind {
            ActionKind::Bet
        } else {
            ActionKind::Raise
        }
    }

    /// How much seat `idx` is behind the current bet.
    pub open spec fn to_call(self, idx: int) -> int {
        if self.current_bet > self.players[idx].bet_in_round {
            self.current_bet - self.players[idx].bet_in_round
        } else {
            0
        }
    }

    /// The table after seat `idx` has folded.
    pub open spec fn fold(self, idx: int) -> GameView {
        GameView {
            players: self.players.update(idx, PlayerView { folded: true, ..self.players[idx] }),
            ..self
        }
    }

    /// What an action does to the table, or why it is refused.
    pub open spec fn applied(self, idx: int, action: PlayerAction) -> Result<(GameView, ActionKind, int), GameError> {
        let p = self.players[idx];
        match action {
            PlayerAction::Fold => Ok((self.fold(idx), ActionKind::Fold, 0)),
            PlayerAction::Check => if self.to_call(idx) > 0 {
                Err(GameError::MustCall(self.to_call(idx) as u64))
            } else {
                Ok((self, ActionKind::Check, 0))
            },
            PlayerAction::Call => if self.to_call(idx) == 0 {
                Err(GameError::NothingToCall)
            } else {
                let g = self.paid(idx, self.to_call(idx));
                Ok((g, ActionKind::Call, g.players[idx].bet_in_round))
            },
            PlayerAction::AllIn => if p.chips == 0 {
                Err(GameError::NoChips)
            } else {
                let g = self.paid(idx, p.chips);
                let bet = p.bet_in_round + p.chips;
                let step = bet - self.current_bet;
                if step > 0 {
                    let min_raise = if step >= self.min_raise { step } else { self.min_raise };
                    Ok((g.raised(idx, bet, min_raise), self.raise_kind(bet), bet))
                } else {
                    Ok((g, ActionKind::AllIn, bet))
                }
            },
            PlayerAction::RaiseTo(target) => {
                let step = target - self.current_bet;
                let need = if target > p.bet_in_round { target - p.bet_in_round } else { 0 };
                if step <= 0 {
                    Err(GameError::RaiseTooLow(self.current_bet as u64))
                } else if step < self.min_raise && p.chips + p.bet_in_round > target {
                    Err(GameError::RaiseTooSmall(self.min_raise as u64))
                } else if need > p.chips {
                    Err(GameError::NotEnoughChips)
                } else {
                    Ok((self.paid(idx, need).raised(idx, target as int, step), self.raise_kind(target as int), target as int))
                }
            },
        }
    }

    /// The table with the action written down and its player marked.
    pub open spec fn logged(self, idx: int, log: ActionLogEntry) -> GameView {
        GameView {
            action_log: self.action_log.push(log),
            players: self.players.update(idx, PlayerView { acted_this_round: true, ..self.players[idx] }),
            ..self
        }
    }

    /// Nobody has bet more in the round than the current bet.
    pub open spec fn nobody_is_above(self) -> bool {
        forall|i: int| 0 <= i < self.players.len() ==> (#[trigger] self.players[i]).bet_in_round <= self.current_bet
    }

    /// Whether everybody who can still bet has acted and put in the current bet.
    pub open spec fn round_complete(self) -> bool {
        forall|i: int| 0 <= i < self.players.len() && self.players[i].can_bet() ==> (#[trigger] self.players[i]).acted_this_round
            && self.players[i].bet_in_round == self.current_bet
    }
}

/// A player at the start of a betting round.
pub open spec fn round_cleared(p: PlayerView) -> PlayerView {
    PlayerView { bet_in_round: 0, acted_this_round: false, ..p }
}

/// The deck after `n` cards have been drawn.
pub open spec fn below(deck: Seq<Card>, n: int) -> Seq<Card> {
    if n <= deck.len() { deck.take(deck.len() - n) } else { Seq::empty() }
}

/// The `n` cards on top of the deck, the top first.
pub open spec fn on_top(deck: Seq<Card>, n: int) -> Seq<Card> {
    if n <= deck.len() { deck.skip(deck.len() - n).reverse() } else { deck.reverse() }
}

impl GameView {
    /// The table with the bets of the round done.
    pub open spec fn round_closed(self) -> GameView {
        GameView {
            players: self.players.map_values(|p: PlayerView| round_cleared(p)),
            current_bet: 0,
            min_raise: self.big_blind,
            ..self
        }
    }

    /// How many cards the next stage reveals, and which stage it is.
    pub open spec fn next_stage(self) -> (Stage, int) {
        match self.stage {
            Stage::PreFlop => (Stage::Flop, 3),
            Stage::Flop => (Stage::Turn, 1),
            Stage::Turn => (Stage::River, 1),
            Stage::River => (Stage::Showdown, 0),
            s => (s, 0),
        }
    }

    /// The cards that the next stage reveals, if it reveals any: one is burnt
    /// first.
    pub open spec fn next_reveal(self) -> Option<(Stage, Seq<Card>)> {
        let (stage, n) = self.next_stage();
        if n == 0 {
            None
        } else {
            Some((stage, on_top(below(self.deck, 1), n)))
        }
    }

    /// The table in its next stage.
    pub open spec fn next_street(self) -> GameView {
        let (stage, n) = self.next_stage();
        if n == 0 {
            GameView { stage, ..self }
        } else {
            let deck = below(self.deck, 1);
            GameView {
                stage,
                deck: below(deck, n),
                community: self.community + on_top(deck, n),
                ..self
            }
        }
    }

    /// How many stages are left before the showdown.
    pub open spec fn streets_left(self) -> nat {
        match self.stage {
            Stage::PreFlop => 4,
            Stage::Flop => 3,
            Stage::Turn => 2,
            Stage::River => 1,
            _ => 0,
        }
    }

    /// The table at showdown, all stages dealt.
    pub open spec fn run_out(self) -> GameView
        decreases self.streets_left(),
    {
        if self.streets_left() == 0 {
            self
        } else {
            self.next_street().run_out()
        }
    }

    /// What running out the board reveals, stage by stage.
    pub open spec fn run_out_reveals(self) -> Seq<(Stage, Seq<Card>)>
        decreases self.streets_left(),
    {
        if self.streets_left() == 0 {
            Seq::empty()
        } else {
            (match self.next_reveal() {
                Some(r) => seq![r],
                None => Seq::empty(),
            }) + self.next_street().run_out_reveals()
        }
    }

    /// The table in the next stage or, if nobody is left to bet against, at
    /// showdown.
    pub open spec fn streets_dealt(self) -> GameView {
        let g = self.next_street();
        if bettors(g.players) < 2 { g.run_out() } else { g }
    }

    /// The table with the turn given to the first bettor behind the button.
    pub open spec fn turn_given(self) -> GameView {
        match seek(self.players, wants_bettor(), self.dealer_idx, 1) {
            Some(i) => GameView { current_idx: i, ..self },
            None => self,
        }
    }

    /// The table after a betting round: the next stage, or the end of the hand.
    pub open spec fn advanced(self) -> GameView {
        let g = self.round_closed().streets_dealt();
        let g = if g.stage is Showdown {
            GameView { stage: Stage::Ended, ..g.shown_down() }
        } else {
            g
        };
        g.turn_given()
    }

    /// What is told of the end of a betting round.
    pub open spec fn advance_outcome(self, log: ActionLogEntry) -> OutcomeView {
        let closed = self.round_closed();
        let g = closed.next_street();
        let end = closed.streets_dealt();
        OutcomeView {
            log,
            stage_cards: closed.next_reveal(),
            extra_stages: if bettors(g.players) < 2 { g.run_out_reveals() } else { Seq::empty() },
            summary: if end.stage is Showdown { Some(end.showdown_summary()) } else { None },
        }
    }

    /// What follows from an action that has been applied and written down.
    pub open spec fn settled(self, idx: int, log: ActionLogEntry) -> Result<(GameView, OutcomeView), GameError> {
        let live = live_seats(self.players);
        if live.len() == 1 {
            Ok((
                GameView { stage: Stage::Ended, ..self.awarded(live[0]) },
                OutcomeView {
                    log,
                    stage_cards: None,
                    extra_stages: Seq::empty(),
                    summary: Some(self.award_summary(live[0])),
                },
            ))
        } else if self.round_complete() {
            Ok((self.advanced(), self.advance_outcome(log)))
        } else {
            match seek(self.players, wants_turn(self.current_bet), idx, 1) {
                Some(next) => Ok((
                    GameView { current_idx: next, ..self },
                    OutcomeView { log, stage_cards: None, extra_stages: Seq::empty(), summary: None },
                )),
                None => Err(GameError::NoNextActor),
            }
        }
    }

    /// What comes of a player's request to act: the table and what is told, or
    /// why it is refused.
    pub open spec fn act_result(self, open_id: Seq<char>, action: PlayerAction) -> Result<(GameView, OutcomeView), GameError> {
        if !self.stage.betting() {
            Err(GameError::NotBetting)
        } else {
            match seat_of(self.players, open_id, 0) {
                None => Err(GameError::NotAtTable),
                Some(idx) => {
                    let p = self.players[idx];
                    if idx != self.current_idx {
                        Err(GameError::NotYourTurn)
                    } else if p.folded || p.all_in || p.sat_out {
                        Err(GameError::DoneForThisHand)
                    } else {
                        match self.applied(idx, action) {
                            Err(e) => Err(e),
                            Ok((g, kind, amount)) => {
                                let log = ActionLogEntry { player_idx: idx as usize, kind, amount: amount as u64 };
                                g.logged(idx, log).settled(idx, log)
                            },
                        }
                    }
                },
            }
        }
    }
}

// ---- the table stays in order ----

proof fn live_seats_drop(players: Seq<PlayerView>, i: int, p: PlayerView)
    requires
        0 <= i < players.len(),
        players[i].live(),
        !p.live(),
    ensures
        live_seats(players.update(i, p)).len() == live_seats(players).len() - 1,
    decreases players.len(),
{
    let last = players.len() - 1;
    if i == last {
        assert(players.update(i, p).drop_last() =~= players.drop_last());
    } else {
        live_seats_drop(players.drop_last(), i, p);
        assert(players.update(i, p).drop_last() =~= players.drop_last().update(i, p));
    }
}

/// Whether the cards and the seats of two tables are the same, so that they
/// differ in bets and turns alone.
pub open spec fn same_deal(g: GameView, h: GameView) -> bool {
    &&& h.players.len() == g.players.len()
    &&& h.stage == g.stage
    &&& h.deck == g.deck
    &&& h.community == g.community
    &&& h.mode == g.mode
    &&& h.big_blind == g.big_blind
    &&& h.small_blind == g.small_blind
    &&& h.dealer_idx == g.dealer_idx
    &&& h.current_idx == g.current_idx
    &&& h.current_bet >= g.current_bet
    &&& h.min_raise > 0
    &&& forall|i: int| 0 <= i < g.players.len() ==> (#[trigger] h.players[i]).hole == g.players[i].hole
        && h.players[i].open_id == g.players[i].open_id && h.players[i].sat_out == g.players[i].sat_out
}

/// With the same deal, the same money and players in order, the table is in
/// order.
proof fn same_deal_keeps_wf(g: GameView, h: GameView)
    requires
        g.table_wf(),
        g.in_hand_wf(),
        same_deal(g, h),
        money(h.players) == money(g.players),
        forall|i: int| 0 <= i < h.players.len() ==> h.player_wf(#[trigger] h.players[i]) && h.players[i].chips >= 0
            && h.players[i].total_bet >= 0 && h.players[i].bet_in_round >= 0,
    ensures
        h.table_wf(),
        h.in_hand_wf(),
        h.in_play() == g.in_play(),
{
    holes_same(h.players, g.players);
    assert forall|c: Card| #[trigger] h.in_play().count(c) <= 1 && (h.in_play().count(c) == 1 ==> h.mode.low() <= c.rank.0
        <= 14) by {
        assert(g.in_play().count(c) <= 1);
    }
    assert forall|i: int, j: int| 0 <= i < j < h.players.len() implies (#[trigger] h.players[i]).open_id != (
    #[trigger] h.players[j]).open_id by {
        assert(g.players[i].open_id != g.players[j].open_id);
    }
}

/// An action leaves the table in order, with the same money on it.
proof fn applied_facts(g: GameView, idx: int, action: PlayerAction)
    requires
        g.wf(),
        g.stage.betting(),
        0 <= idx < g.players.len(),
        g.players[idx].can_bet(),
        g.applied(idx, action) is Ok,
    ensures
        ({
            let (h, kind, amount) = g.applied(idx, action)->Ok_0;
            &&& same_deal(g, h)
            &&& money(h.players) == money(g.players)
            &&& h.table_wf()
            &&& h.in_hand_wf()
            &&& h.in_play() == g.in_play()
            &&& live_seats(h.players).len() >= 1
            &&& 0 <= amount <= u64::MAX
        }),
{
    let (h, kind, amount) = g.applied(idx, action)->Ok_0;
    let p = g.players[idx];
    assert(g.player_wf(p));
    money_bounds(g.players);
    match action {
        PlayerAction::Fold => {
            live_seats_drop(g.players, idx, h.players[idx]);
            money_update(g.players, idx, h.players[idx]);
        },
        PlayerAction::Check => {},
        PlayerAction::Call => {
            paid_facts(g, idx, g.to_call(idx));
        },
        PlayerAction::AllIn => {
            let a = g.paid(idx, p.chips);
            paid_facts(g, idx, p.chips);
            if p.bet_in_round + p.chips > g.current_bet {
                money_same(h.players, a.players);
                live_seats_same(h.players, a.players);
            }
        },
        PlayerAction::RaiseTo(target) => {
            let need = target - p.bet_in_round;
            let a = g.paid(idx, need);
            paid_facts(g, idx, need);
            money_same(h.players, a.players);
            live_seats_same(h.players, a.players);
        },
    }
    assert forall|i: int| 0 <= i < h.players.len() implies h.player_wf(#[trigger] h.players[i]) && h.players[i].chips >= 0
        && h.players[i].total_bet >= 0 && h.players[i].bet_in_round >= 0 by {
        assert(g.player_wf(g.players[i]));
    }
    same_deal_keeps_wf(g, h);
}

proof fn logged_facts(g: GameView, idx: int, log: ActionLogEntry)
    requires
        g.table_wf(),
        g.in_hand_wf(),
        0 <= idx < g.players.len(),
    ensures
        g.logged(idx, log).table_wf(),
        g.logged(idx, log).in_hand_wf(),
        money(g.logged(idx, log).players) == money(g.players),
        g.logged(idx, log).in_play() == g.in_play(),
        live_seats(g.logged(idx, log).players) == live_seats(g.players),
{
    let h = g.logged(idx, log);
    money_update(g.players, idx, h.players[idx]);
    live_seats_same(h.players, g.players);
    assert forall|i: int| 0 <= i < h.players.len() implies h.player_wf(#[trigger] h.players[i]) && h.players[i].chips >= 0
        && h.players[i].total_bet >= 0 && h.players[i].bet_in_round >= 0 by {
        assert(g.player_wf(g.players[i]));
    }
    same_deal_keeps_wf(g, h);
}

proof fn cleared_money(players: Seq<PlayerView>, winner: int)
    requires
        0 <= winner < players.len(),
    ensures
        ({
            let ps = all_bets_cleared(players.update(winner, enriched(players[winner], bets(players))));
            money(ps) == money(players)
        }),
{
    let richer = players.update(winner, enriched(players[winner], bets(players)));
    let ps = all_bets_cleared(richer);
    stacks_update(players, winner, enriched(players[winner], bets(players)));
    super::showdown::cleared_facts(richer);
    money_is_stacks_and_bets(players);
    money_is_stacks_and_bets(ps);
}

/// The table after the pot went to the last player in.
proof fn awarded_facts(g: GameView, winner: int)
    requires
        g.table_wf(),
        0 <= winner < g.players.len(),
    ensures
        (GameView { stage: Stage::Ended, ..g.awarded(winner) }).wf(),
        money(g.awarded(winner).players) == money(g.players),
{
    let h = GameView { stage: Stage::Ended, ..g.awarded(winner) };
    cleared_money(g.players, winner);
    money_bounds(g.players);
    assert forall|i: int| 0 <= i < h.players.len() implies (#[trigger] h.players[i]).chips >= 0 && h.players[i].total_bet == 0
        && h.players[i].bet_in_round == 0 && h.players[i].open_id == g.players[i].open_id by {
        assert(g.players[i].chips >= 0);
    }
    assert forall|i: int, j: int| 0 <= i < j < h.players.len() implies (#[trigger] h.players[i]).open_id != (
    #[trigger] h.players[j]).open_id by {
        assert(g.players[i].open_id != g.players[j].open_id);
    }
}

/// What holds of a table between two betting rounds.
spec fn round_over(g: GameView) -> bool {
    &&& g.table_wf()
    &&& live_seats(g.players).len() >= 2
    &&& g.dealer_idx < g.players.len()
    &&& g.current_idx < g.players.len()
    &&& g.current_bet == 0
    &&& g.community.len() == g.board_size()
    &&& g.deck.len() >= g.cards_to_come()
    &&& g.cards_wf()
    &&& forall|i: int| 0 <= i < g.players.len() ==> g.player_wf(#[trigger] g.players[i]) && g.players[i].bet_in_round == 0
        && (g.players[i].live() ==> g.players[i].total_bet > 0)
}

proof fn round_closed_facts(g: GameView)
    requires
        g.table_wf(),
        g.hand_wf(),
        g.stage.betting(),
        g.round_complete(),
    ensures
        round_over(g.round_closed()),
        money(g.round_closed().players) == money(g.players),
        g.round_closed().in_play() == g.in_play(),
        live_seats(g.round_closed().players) == live_seats(g.players),
{
    let h = g.round_closed();
    money_same(h.players, g.players);
    holes_same(h.players, g.players);
    live_seats_same(h.players, g.players);
    assert forall|c: Card| #[trigger] h.in_play().count(c) <= 1 && (h.in_play().count(c) == 1 ==> h.mode.low() <= c.rank.0
        <= 14) by {
        assert(g.in_play().count(c) <= 1);
    }
    assert forall|i: int| 0 <= i < h.players.len() implies h.player_wf(#[trigger] h.players[i]) && h.players[i].bet_in_round == 0
        && (h.players[i].live() ==> h.players[i].total_bet > 0) && h.players[i].chips >= 0 && h.players[i].total_bet >= 0
        && h.players[i].open_id == g.players[i].open_id by {
        assert(g.player_wf(g.players[i]));
        if g.players[i].can_bet() {
            assert(g.players[i].bet_in_round == g.current_bet);
        }
    }
    assert forall|i: int, j: int| 0 <= i < j < h.players.len() implies (#[trigger] h.players[i]).open_id != (
    #[trigger] h.players[j]).open_id by {
        assert(g.players[i].open_id != g.players[j].open_id);
    }
}

/// Cards come off the deck and onto the board; the burnt card is out of play.
proof fn next_street_facts(g: GameView)
    requires
        round_over(g),
        g.stage.betting(),
    ensures
        round_over(g.next_street()),
        g.next_street().streets_left() == g.streets_left() - 1,
        g.next_street().players == g.players,
        g.next_street().stage is Showdown || g.next_street().stage.betting(),
        !(g.next_street().stage is PreFlop),
        forall|c: Card| g.next_street().in_play().count(c) <= g.in_play().count(c),
{
    broadcast use vstd::multiset::group_multiset_axioms, vstd::seq_lib::group_to_multiset_ensures;

    let h = g.next_street();
    let (stage, n) = g.next_stage();
    if n > 0 {
        let d = g.deck;
        let d1 = below(d, 1);
        let d2 = below(d1, n);
        let t = on_top(d1, n);
        assert(d =~= d1.push(d.last()));
        assert(d1 =~= d2 + d1.skip(d1.len() - n));
        vstd::seq_lib::lemma_multiset_commutative(d2, d1.skip(d1.len() - n));
        reverse_keeps_items(d1.skip(d1.len() - n));
        vstd::seq_lib::lemma_multiset_commutative(g.community, t);
        assert forall|c: Card| h.in_play().count(c) <= g.in_play().count(c) by {}
        assert forall|c: Card| #[trigger] h.in_play().count(c) <= 1 && (h.in_play().count(c) == 1 ==> h.mode.low()
            <= c.rank.0 <= 14) by {
            assert(g.in_play().count(c) <= 1);
        }
    } else {
        assert forall|c: Card| #[trigger] h.in_play().count(c) <= 1 && (h.in_play().count(c) == 1 ==> h.mode.low()
            <= c.rank.0 <= 14) by {
            assert(g.in_play().count(c) <= 1);
        }
    }
    assert forall|i: int| 0 <= i < h.players.len() implies h.player_wf(#[trigger] h.players[i]) by {
        assert(g.player_wf(g.players[i]));
    }
}

proof fn reverse_keeps_items(s: Seq<Card>)
    ensures
        s.reverse().to_multiset() == s.to_multiset(),
    decreases s.len(),
{
    broadcast use vstd::multiset::group_multiset_axioms, vstd::seq_lib::group_to_multiset_ensures;

    if s.len() == 0 {
        assert(s.reverse() =~= s);
    } else {
        let rest = s.drop_last();
        reverse_keeps_items(rest);
        assert(s.reverse() =~= seq![s.last()] + rest.reverse());
        assert(s =~= rest.push(s.last()));
        vstd::seq_lib::lemma_multiset_commutative(seq![s.last()], rest.reverse());
        let none: Seq<Card> = Seq::empty();
        assert(seq![s.last()] =~= none.push(s.last()));
        assert(s.reverse().to_multiset() =~= s.to_multiset());
    }
}

proof fn run_out_facts(g: GameView)
    requires
        round_over(g),
        g.stage is Showdown || g.stage.betting(),
    ensures
        round_over(g.run_out()),
        g.run_out().stage is Showdown,
        g.run_out().players == g.players,
    decreases g.streets_left(),
{
    if g.streets_left() > 0 {
        next_street_facts(g);
        run_out_facts(g.next_street());
    }
}

/// How one more player counts among those who can bet.
proof fn one_more_bettor(players: Seq<PlayerView>, i: int)
    requires
        0 <= i < players.len(),
    ensures
        bettors(players.take(i + 1)) == bettors(players.take(i)) + if players[i].can_bet() { 1nat } else { 0nat },
{
    assert(players.take(i + 1).drop_last() =~= players.take(i));
}

proof fn two_bettors(players: Seq<PlayerView>)
    ensures
        bettors(players) > 0 ==> exists|i: int| 0 <= i < players.len() && (#[trigger] players[i]).can_bet(),
    decreases players.len(),
{
    if players.len() > 0 {
        let rest = players.drop_last();
        two_bettors(rest);
        if bettors(rest) > 0 {
            let i = choose|i: int| 0 <= i < rest.len() && (#[trigger] rest[i]).can_bet();
            assert(players[i].can_bet());
        } else {
            assert(players[players.len() - 1] == players.last());
        }
    }
}

/// Whether the outcome tells of the end of the hand if and only if the hand is
/// over, and then of payouts that come to all the bets that were made.
pub open spec fn tells_the_end(g: GameView, h: GameView, o: OutcomeView) -> bool {
    match o.summary {
        Some(s) => h.stage is Ended && paid_out(s.payouts) == bets(g.players),
        None => !(h.stage is Ended),
    }
}

/// Whether a table in play gives the turn to somebody who can act.
pub open spec fn turn_is_possible(g: GameView) -> bool {
    g.stage.betting() ==> 0 <= g.current_idx < g.players.len() && g.players[g.current_idx].can_bet()
}

proof fn advanced_facts(g: GameView)
    requires
        g.table_wf(),
        g.hand_wf(),
        g.stage.betting(),
        g.round_complete(),
    ensures
        g.advanced().wf(),
        money(g.advanced().players) == money(g.players),
        turn_is_possible(g.advanced()),
        forall|log: ActionLogEntry| tells_the_end(g, g.advanced(), #[trigger] g.advance_outcome(log)),
{
    round_closed_facts(g);
    let c = g.round_closed();
    next_street_facts(c);
    let s = c.next_street();
    if bettors(s.players) < 2 {
        run_out_facts(s);
    }
    let d = c.streets_dealt();
    assert(round_over(d));
    assert(d.players == c.players);
    if d.stage is Showdown {
        assert(d.hand_wf());
        showdown_keeps_the_money(d);
        bets_same(d.players, g.players);
        let e = GameView { stage: Stage::Ended, ..d.shown_down() };
        assert forall|i: int| 0 <= i < e.players.len() implies (#[trigger] e.players[i]).chips >= 0 && e.players[i].total_bet == 0
            && e.players[i].bet_in_round == 0 && e.players[i].open_id == d.players[i].open_id by {
            assert(d.players[i].chips >= 0);
            assert(d.shown_down().players[i].chips >= d.players[i].chips);
        }
        assert forall|i: int, j: int| 0 <= i < j < e.players.len() implies (#[trigger] e.players[i]).open_id != (
        #[trigger] e.players[j]).open_id by {
            assert(d.players[i].open_id != d.players[j].open_id);
        }
        seek_facts(e.players, wants_bettor(), e.dealer_idx, 1);
        assert(e.wf());
    } else {
        two_bettors(d.players);
        let j = choose|i: int| 0 <= i < d.players.len() && (#[trigger] d.players[i]).can_bet();
        seek_finds(d.players, wants_bettor(), d.dealer_idx, j);
        let e = d.turn_given();
        assert(e.in_play() == d.in_play());
        assert forall|i: int| 0 <= i < e.players.len() implies e.player_wf(#[trigger] e.players[i]) by {
            assert(d.player_wf(d.players[i]));
        }
        assert forall|c: Card| #[trigger] e.in_play().count(c) <= 1 && (e.in_play().count(c) == 1 ==> e.mode.low()
            <= c.rank.0 <= 14) by {
            assert(d.in_play().count(c) <= 1);
        }
    }
}

/// What follows from an action leaves the table in order and the money on it,
/// and gives the turn to somebody who can act.
proof fn settled_facts(g: GameView, idx: int, log: ActionLogEntry)
    requires
        g.table_wf(),
        g.in_hand_wf(),
        g.stage.betting(),
        live_seats(g.players).len() >= 1,
        0 <= idx < g.players.len(),
    ensures
        g.settled(idx, log) matches Ok((h, o)) && h.wf() && money(h.players) == money(g.players) && turn_is_possible(h)
            && tells_the_end(g, h, o),
{
    live_seats_facts(g.players);
    if live_seats(g.players).len() == 1 {
        let w = live_seats(g.players)[0];
        awarded_facts(g, w);
        let payouts = g.award_summary(w).payouts;
        assert(payouts.drop_last() =~= Seq::empty());
        assert(paid_out(payouts.drop_last()) == 0);
    } else if g.round_complete() {
        advanced_facts(g);
    } else {
        let j = choose|i: int| 0 <= i < g.players.len() && g.players[i].can_bet() && !((#[trigger] g.players[i]).acted_this_round
            && g.players[i].bet_in_round == g.current_bet);
        assert(g.player_wf(g.players[j]));
        seek_finds(g.players, wants_turn(g.current_bet), idx, j);
        let h = GameView { current_idx: seek(g.players, wants_turn(g.current_bet), idx, 1)->0, ..g };
        assert(h.in_play() == g.in_play());
        assert forall|c: Card| #[trigger] h.in_play().count(c) <= 1 && (h.in_play().count(c) == 1 ==> h.mode.low()
            <= c.rank.0 <= 14) by {
            assert(g.in_play().count(c) <= 1);
        }
        assert forall|i: int| 0 <= i < h.players.len() implies h.player_wf(#[trigger] h.players[i]) by {
            assert(g.player_wf(g.players[i]));
        }
    }
}

/// Acting keeps the table in order and the money on it; the only refusals are
/// those of the rules, and the turn goes to somebody who can act.
pub proof fn act_facts(g: GameView, open_id: Seq<char>, action: PlayerAction)
    requires
        g.wf(),
    ensures
        g.act_result(open_id, action) matches Ok((h, o)) ==> h.wf() && money(h.players) == money(g.players) && turn_is_possible(h)
            && 0 <= g.current_idx < g.players.len() && g.applied(g.current_idx, action) is Ok && tells_the_end(
            g.applied(g.current_idx, action)->Ok_0.0,
            h,
            o,
        ),
        g.act_result(open_id, action) != Err::<(GameView, OutcomeView), GameError>(GameError::NoNextActor),
{
    if g.stage.betting() {
        seat_of_facts(g.players, open_id, 0);
        match seat_of(g.players, open_id, 0) {
            None => {},
            Some(idx) => {
                if idx == g.current_idx && g.players[idx].can_bet() {
                    match g.applied(idx, action) {
                        Err(e) => {},
                        Ok((h, kind, amount)) => {
                            applied_facts(g, idx, action);
                            let log = ActionLogEntry { player_idx: idx as usize, kind, amount: amount as u64 };
                            logged_facts(h, idx, log);
                            settled_facts(h.logged(idx, log), idx, log);
                            money_update(h.players, idx, h.logged(idx, log).players[idx]);
                        },
                    }
                }
            },
        }
    }
}

/// A betting round is complete if and only if nobody is still to act, from
/// whichever seat on one looks.
pub proof fn a_round_is_complete_when_nobody_is_to_act(g: GameView, from: int)
    requires
        0 <= from < g.players.len(),
        g.nobody_is_above(),
    ensures
        g.round_complete() <==> seek(g.players, wants_turn(g.current_bet), from, 1) is None,
{
    let want = wants_turn(g.current_bet);
    seek_facts(g.players, want, from, 1);
    if !g.round_complete() {
        let j = choose|i: int| 0 <= i < g.players.len() && g.players[i].can_bet() && !((#[trigger] g.players[i]).acted_this_round
            && g.players[i].bet_in_round == g.current_bet);
        assert(g.players[j].bet_in_round <= g.current_bet);
        seek_finds(g.players, want, from, j);
    }
}

// ---- betting ----

impl Game {
    /// Find the next player who still needs to act this round. A player needs
    /// to act if they are not folded, not all-in, and either haven't acted yet
    /// or are behind the current bet.
    pub fn next_to_act_after(&self, from: usize) -> (r: Option<usize>)
        requires
            from + self.players@.len() < usize::MAX,
        ensures
            match r {
                Some(i) => seek(self@.players, wants_turn(self@.current_bet), from as int, 1) == Some(i as int),
                None => seek(self@.players, wants_turn(self@.current_bet), from as int, 1) is None,
            },
            from < self@.players.len() && self@.nobody_is_above() ==> (r is None <==> self@.round_complete()),
    {
        proof {
            if from < self@.players.len() && self@.nobody_is_above() {
                a_round_is_complete_when_nobody_is_to_act(self@, from as int);
            }
        }
        let n: usize = self.players.len();
        let mut k: usize = 1;
        while k <= n
            invariant
                n == self.players@.len(),
                from + n < usize::MAX,
                1 <= k <= n + 1,
                seek(self@.players, wants_turn(self@.current_bet), from as int, 1) == seek(
                    self@.players,
                    wants_turn(self@.current_bet),
                    from as int,
                    k as int,
                ),
            decreases n + 1 - k,
        {
            let i: usize = (from + k) % n;
            let p = &self.players[i];
            assert(self@.players[i as int] == p@);
            if !p.sat_out && !p.folded && !p.all_in && (!p.acted_this_round || p.bet_in_round < self.current_bet) {
                return Some(i);
            }
            k = k + 1;
        }
        None
    }

    fn first_to_act_postflop(&self) -> (r: Option<usize>)
        requires
            0 < self.players@.len() <= MAX_PLAYERS,
            self.dealer_idx < MAX_PLAYERS,
        ensures
            match r {
                Some(i) => seek(self@.players, wants_bettor(), self@.dealer_idx, 1) == Some(i as int),
                None => seek(self@.players, wants_bettor(), self@.dealer_idx, 1) is None,
            },
    {
        let n: usize = self.players.len();
        let mut k: usize = 1;
        while k <= n
            invariant
                n == self.players@.len(),
                0 < n <= MAX_PLAYERS,
                self.dealer_idx < MAX_PLAYERS,
                1 <= k <= n + 1,
                seek(self@.players, wants_bettor(), self@.dealer_idx, 1) == seek(
                    self@.players,
                    wants_bettor(),
                    self@.dealer_idx,
                    k as int,
                ),
            decreases n + 1 - k,
        {
            let i: usize = (self.dealer_idx + k) % n;
            let p = &self.players[i];
            assert(self@.players[i as int] == p@);
            if !p.sat_out && !p.folded && !p.all_in {
                return Some(i);
            }
            k = k + 1;
        }
        None
    }

    fn live_players(&self) -> (r: Vec<usize>)
        ensures
            super::pots::seats_view(r@) == live_seats(self@.players),
    {
        let mut r: Vec<usize> = Vec::new();
        let mut i: usize = 0;
        while i < self.players.len()
            invariant
                i <= self.players@.len() == self@.players.len(),
                super::pots::seats_view(r@) =~= live_seats(self@.players.take(i as int)),
            decreases self.players@.len() - i,
        {
            assert(self@.players.take(i + 1).drop_last() =~= self@.players.take(i as int));
            assert(self@.players[i as int] == self.players@[i as int]@);
            assert(self@.players.take(i + 1).last() == self.players@[i as int]@);
            if !self.players[i].sat_out && !self.players[i].folded {
                r.push(i);
            }
            i = i + 1;
        }
        assert(self@.players.take(self.players@.len() as int) =~= self@.players);
        r
    }

    /// Whether at least two players who are still in have chips to bet.
    #[verifier::spinoff_prover]
    fn betting_possible(&self) -> (r: bool)
        ensures
            r == (bettors(self@.players) >= 2),
    {
        let ghost all = self@.players;
        let mut count: usize = 0;
        let mut i: usize = 0;
        while i < self.players.len()
            invariant
                all == self@.players,
                i <= self.players@.len() == all.len(),
                count <= i,
                count == bettors(all.take(i as int)),
            decreases self.players@.len() - i,
        {
            let p = &self.players[i];
            assert(all[i as int] == p@);
            proof {
                one_more_bettor(all, i as int);
            }
            if !p.sat_out && !p.folded && !p.all_in {
                count = count + 1;
            }
            i = i + 1;
        }
        assert(all.take(self.players@.len() as int) =~= all);
        count >= 2
    }

    /// Whether everybody who can still bet has acted and put in the current bet.
    pub fn is_round_complete(&self) -> (r: bool)
        ensures
            r == self@.round_complete(),
            self@.nobody_is_above() ==> forall|from: int|
                0 <= from < self@.players.len() ==> (r <==> #[trigger] seek(
                    self@.players,
                    wants_turn(self@.current_bet),
                    from,
                    1,
                ) is None),
    {
        assert forall|from: int| self@.nobody_is_above() && 0 <= from < self@.players.len() implies (self@.round_complete()
            <==> #[trigger] seek(self@.players, wants_turn(self@.current_bet), from, 1) is None) by {
            a_round_is_complete_when_nobody_is_to_act(self@, from);
        }
        let mut i: usize = 0;
        while i < self.players.len()
            invariant
                i <= self.players@.len() == self@.players.len(),
                forall|j: int| 0 <= j < i && self@.players[j].can_bet() ==> (#[trigger] self@.players[j]).acted_this_round
                    && self@.players[j].bet_in_round == self@.current_bet,
                self@.nobody_is_above() ==> forall|from: int|
                    0 <= from < self@.players.len() ==> (self@.round_complete() <==> #[trigger] seek(
                        self@.players,
                        wants_turn(self@.current_bet),
                        from,
                        1,
                    ) is None),
            decreases self.players@.len() - i,
        {
            let p = &self.players[i];
            assert(self@.players[i as int] == p@);
            if !p.sat_out && !p.folded && !p.all_in && !(p.acted_this_round && p.bet_in_round == self.current_bet) {
                assert(!self@.round_complete());
                return false;
            }
            i = i + 1;
        }
        true
    }

    /// When somebody raises, every other still-active player must act again.
    fn reset_acted_for_raise(&mut self, raiser_idx: usize)
        ensures
            final(self)@ == (GameView {
                players: all_asked_again(old(self)@.players, raiser_idx as int),
                ..old(self)@
            }),
    {
        let ghost before = self@;
        let mut i: usize = 0;
        while i < self.players.len()
            invariant
                before == old(self)@,
                i <= self.players@.len() == before.players.len(),
                self@ == (GameView { players: self@.players, ..before }),
                forall|j: int| 0 <= j < i ==> #[trigger] self@.players[j] == asked_again(before.players[j], j == raiser_idx),
                forall|j: int| i <= j < before.players.len() ==> #[trigger] self@.players[j] == before.players[j],
            decreases self.players@.len() - i,
        {
            let ghost cur = self@.players;
            assert(cur[i as int] == before.players[i as int]);
            assert(cur[i as int] == self.players@[i as int]@);
            if !(i == raiser_idx || self.players[i].folded || self.players[i].all_in || self.players[i].sat_out) {
                self.players[i].acted_this_round = false;
            }
            assert(self@.players =~= cur.update(i as int, asked_again(before.players[i as int], i == raiser_idx)));
            i = i + 1;
        }
        assert(self@.players =~= all_asked_again(before.players, raiser_idx as int));
    }

    fn raise_to(&mut self, idx: usize, target: u64, min_raise: u64)
        ensures
            final(self)@ == old(self)@.raised(idx as int, target as int, min_raise as int),
    {
        self.min_raise = min_raise;
        self.current_bet = target;
        self.reset_acted_for_raise(idx);
        assert(self@ =~= old(self)@.raised(idx as int, target as int, min_raise as int));
    }

    /// Do what the action says, or refuse it and leave the table as it is.
    fn apply_action(&mut self, idx: usize, action: PlayerAction) -> (r: Result<ActionLogEntry, GameError>)
        requires
            old(self)@.wf(),
            old(self)@.stage.betting(),
            idx < old(self)@.players.len(),
            old(self)@.players[idx as int].can_bet(),
        ensures
            match old(self)@.applied(idx as int, action) {
                Err(e) => r == Err::<ActionLogEntry, GameError>(e) && final(self)@ == old(self)@,
                Ok((g, kind, amount)) => final(self)@ == g && r == Ok::<ActionLogEntry, GameError>(
                    ActionLogEntry { player_idx: idx, kind, amount: amount as u64 },
                ),
            },
    {
        let ghost before = self@;
        proof {
            money_bounds(before.players);
            assert(before.player_wf(before.players[idx as int]));
            assert(self@.players[idx as int] == self.players@[idx as int]@);
        }
        let chips = self.players[idx].chips;
        let bet = self.players[idx].bet_in_round;
        let to_call: u64 = self.current_bet.saturating_sub(bet);
        let kind: ActionKind;
        let amount: u64;
        match action {
            PlayerAction::Fold => {
                self.players[idx].folded = true;
                assert(self@.players =~= before.fold(idx as int).players);
                kind = ActionKind::Fold;
                amount = 0;
            },
            PlayerAction::Check => {
                if to_call > 0 {
                    return Err(GameError::MustCall(to_call));
                }
                kind = ActionKind::Check;
                amount = 0;
            },
            PlayerAction::Call => {
                if to_call == 0 {
                    return Err(GameError::NothingToCall);
                }
                self.contribute(idx, to_call);
                kind = ActionKind::Call;
                assert(self@.players.len() == self.players@.len());
                assert(self@.players[idx as int] == self.players@[idx as int]@);
                amount = self.players[idx].bet_in_round;
            },
            PlayerAction::AllIn => {
                if chips == 0 {
                    return Err(GameError::NoChips);
                }
                self.contribute(idx, chips);
                let new_bet: u64 = bet + chips;
                if new_bet > self.current_bet {
                    let step: u64 = new_bet - self.current_bet;
                    let min_raise: u64 = if step >= self.min_raise { step } else { self.min_raise };
                    self.raise_to(idx, new_bet, min_raise);
                    kind = if self.community.len() == 0 && self.current_bet == self.big_blind {
                        ActionKind::Bet
                    } else {
                        ActionKind::Raise
                    };
                } else {
                    kind = ActionKind::AllIn;
                }
                amount = new_bet;
            },
            PlayerAction::RaiseTo(target) => {
                if target <= self.current_bet {
                    return Err(GameError::RaiseTooLow(self.current_bet));
                }
                let step: u64 = target - self.current_bet;
                if step < self.min_raise && chips + bet > target {
                    return Err(GameError::RaiseTooSmall(self.min_raise));
                }
                let need: u64 = target.saturating_sub(bet);
                if need > chips {
                    return Err(GameError::NotEnoughChips);
                }
                self.contribute(idx, need);
                self.raise_to(idx, target, step);
                kind = if self.community.len() == 0 && target == self.big_blind {
                    ActionKind::Bet
                } else {
                    ActionKind::Raise
                };
                amount = target;
            },
        }
        Ok(ActionLogEntry { player_idx: idx, kind, amount })
    }

    /// Deal the cards of the next stage, after burning one.
    fn deal_next_stage(&mut self) -> (r: Option<(Stage, Vec<Card>)>)
        ensures
            final(self)@ == old(self)@.next_street(),
            match r {
                Some(s) => old(self)@.next_reveal() == Some(reveal_view(s)),
                None => old(self)@.next_reveal() is None,
            },
    {
        let ghost before = self@;
        match self.stage {
            Stage::PreFlop => Some((Stage::Flop, self.reveal_cards(Stage::Flop, 3))),
            Stage::Flop => Some((Stage::Turn, self.reveal_cards(Stage::Turn, 1))),
            Stage::Turn => Some((Stage::River, self.reveal_cards(Stage::River, 1))),
            Stage::River => {
                self.stage = Stage::Showdown;
                None
            },
            _ => None,
        }
    }

    fn reveal_cards(&mut self, stage: Stage, n: usize) -> (r: Vec<Card>)
        ensures
            ({
                let deck = below(old(self)@.deck, 1);
                &&& r@ == on_top(deck, n as int)
                &&& final(self)@ == (GameView {
                    stage,
                    deck: below(deck, n as int),
                    community: old(self)@.community + on_top(deck, n as int),
                    ..old(self)@
                })
            }),
    {
        let ghost before = self@;
        let burnt = self.deck.draw();
        assert(self@.deck =~= below(before.deck, 1));
        let cards = self.deck.draw_n(n);
        assert(cards@ =~= on_top(below(before.deck, 1), n as int));
        assert(self@.deck =~= below(below(before.deck, 1), n as int));
        self.community.extend_from_slice(cards.as_slice());
        assert(self@.community =~= before.community + cards@);
        self.stage = stage;
        cards
    }

    /// Close the betting round: deal the next stage or, if no further betting
    /// is possible, all of them, and show down at the end.
    fn advance_after_round(&mut self, log: ActionLogEntry) -> (r: ActOutcome)
        requires
            old(self)@.table_wf(),
            old(self)@.hand_wf(),
            old(self)@.stage.betting(),
            old(self)@.round_complete(),
        ensures
            final(self)@ == old(self)@.advanced(),
            r@ == old(self)@.advance_outcome(log),
    {
        let ghost before = self@;
        proof {
            round_closed_facts(before);
            next_street_facts(before.round_closed());
        }
        self.close_round();
        let primary = self.deal_next_stage();
        let ghost street = self@;
        assert(street == before.round_closed().next_street());
        proof {
            if bettors(street.players) < 2 {
                run_out_facts(street);
            }
        }

        // If no further betting is possible (all but one are all-in / folded),
        // run out the rest of the streets without prompting for actions.
        let mut extras: Vec<(Stage, Vec<Card>)> = Vec::new();
        if !self.betting_possible() {
            extras = self.deal_to_showdown();
        } else {
            assert(reveals_view(extras@) =~= Seq::empty());
        }
        let ghost dealt = self@;
        assert(dealt == before.round_closed().streets_dealt());

        // Showdown if we hit it.
        let is_showdown = self.stage == Stage::Showdown;
        let summary = if is_showdown {
            let s = self.showdown();
            self.stage = Stage::Ended;
            Some(s)
        } else {
            None
        };
        let ghost shown = self@;
        proof {
            if is_showdown {
                showdown_keeps_the_money(dealt);
            }
        }
        assert(self@.players.len() == self.players@.len());
        if let Some(i) = self.first_to_act_postflop() {
            self.current_idx = i;
        }
        assert(self@ =~= before.advanced());
        let outcome = ActOutcome { log, stage_cards: primary, extra_stages: extras, summary };
        assert(outcome@ =~= before.advance_outcome(log));
        outcome
    }

    fn close_round(&mut self)
        ensures
            final(self)@ == old(self)@.round_closed(),
    {
        let ghost before = self@;
        let mut i: usize = 0;
        while i < self.players.len()
            invariant
                before == old(self)@,
                i <= self.players@.len() == before.players.len(),
                self@ == (GameView { players: self@.players, ..before }),
                forall|j: int| 0 <= j < i ==> #[trigger] self@.players[j] == round_cleared(before.players[j]),
                forall|j: int| i <= j < before.players.len() ==> #[trigger] self@.players[j] == before.players[j],
            decreases self.players@.len() - i,
        {
            let ghost cur = self@.players;
            assert(cur[i as int] == before.players[i as int]);
            self.players[i].bet_in_round = 0;
            self.players[i].acted_this_round = false;
            assert(self@.players =~= cur.update(i as int, round_cleared(before.players[i as int])));
            i = i + 1;
        }
        self.current_bet = 0;
        self.min_raise = self.big_blind;
        assert(self@.players =~= before.round_closed().players);
    }

    /// Deal all stages that are left.
    fn deal_to_showdown(&mut self) -> (r: Vec<(Stage, Vec<Card>)>)
        requires
            old(self)@.stage is Showdown || old(self)@.stage.betting(),
        ensures
            final(self)@ == old(self)@.run_out(),
            reveals_view(r@) == old(self)@.run_out_reveals(),
    {
        let ghost before = self@;
        let mut extras: Vec<(Stage, Vec<Card>)> = Vec::new();
        assert(reveals_view(extras@) =~= Seq::empty());
        while self.stage != Stage::Showdown
            invariant
                self@.stage is Showdown || self@.stage.betting(),
                self@.run_out() == before.run_out(),
                before.run_out_reveals() =~= reveals_view(extras@) + self@.run_out_reveals(),
            decreases self@.streets_left(),
        {
            let ghost cur = self@;
            let ghost so_far = reveals_view(extras@);
            if let Some(e) = self.deal_next_stage() {
                extras.push(e);
                assert(reveals_view(extras@) =~= so_far.push(reveal_view(e)));
            }
        }
        assert(self@.run_out_reveals() =~= Seq::empty());
        extras
    }

    /// Apply a player's action: only the player whose turn it is can act.
    pub fn act(&mut self, open_id: &str, action: PlayerAction) -> (r: Result<ActOutcome, GameError>)
        requires
            old(self)@.wf(),
        ensures
            final(self)@.wf(),
            match old(self)@.act_result(open_id@, action) {
                Err(e) => r is Err && r->Err_0 == e && final(self)@ == old(self)@,
                Ok((g, o)) => r is Ok && r->Ok_0@ == o && final(self)@ == g,
            },
    {
        let ghost before = self@;
        proof {
            act_facts(before, open_id@, action);
        }
        if !self.stage.is_betting() {
            return Err(GameError::NotBetting);
        }
        let idx: usize = match self.find_player(open_id) {
            Some(i) => i,
            None => {
                return Err(GameError::NotAtTable);
            },
        };
        if idx != self.current_idx {
            return Err(GameError::NotYourTurn);
        }
        assert(before.players[idx as int] == self.players@[idx as int]@);
        if self.players[idx].folded || self.players[idx].all_in || self.players[idx].sat_out {
            return Err(GameError::DoneForThisHand);
        }
        let log = match self.apply_action(idx, action) {
            Ok(log) => log,
            Err(e) => {
                return Err(e);
            },
        };
        let ghost applied = self@;
        proof {
            applied_facts(before, idx as int, action);
            logged_facts(applied, idx as int, log);
            settled_facts(applied.logged(idx as int, log), idx as int, log);
        }
        self.action_log.push(log);
        // Mark the actor as having acted this round
        assert(self@.players.len() == self.players@.len());
        assert(applied.players[idx as int] == self.players@[idx as int]@);
        self.players[idx].acted_this_round = true;
        assert(self@ =~= applied.logged(idx as int, log));
        let ghost ready = self@;

        // 1. If only one non-folded player remains, the hand ends immediately.
        let remaining = self.live_players();
        proof {
            live_seats_facts(ready.players);
            assert(super::pots::seats_view(remaining@)[0] == remaining@[0]);
        }
        if remaining.len() == 1 {
            let summary = self.award_uncontested(remaining[0]);
            self.stage = Stage::Ended;
            let extra_stages: Vec<(Stage, Vec<Card>)> = Vec::new();
            assert(reveals_view(extra_stages@) =~= Seq::empty());
            return Ok(ActOutcome { log, stage_cards: None, extra_stages, summary: Some(summary) });
        }
        // 2. If the betting round is complete, advance stage(s).
        if self.is_round_complete() {
            return Ok(self.advance_after_round(log));
        }
        // 3. Otherwise hand off to the next actor.
        match self.next_to_act_after(idx) {
            Some(next) => {
                self.current_idx = next;
                let extra_stages: Vec<(Stage, Vec<Card>)> = Vec::new();
                assert(reveals_view(extra_stages@) =~= Seq::empty());
                Ok(ActOutcome { log, stage_cards: None, extra_stages, summary: None })
            },
            None => Err(GameError::NoNextActor),
        }
    }
}

pub open spec fn reveals_view(r: Seq<(Stage, Vec<Card>)>) -> Seq<(Stage, Seq<Card>)> {
    r.map_values(|e: (Stage, Vec<Card>)| reveal_view(e))
}

} // verus!
