//! How a hand is conducted: who may act, what an action does, and what follows.

use vstd::prelude::*;
use crate::poker::Card;
use super::betting::{act_facts, below, on_top, round_cleared, wants_bettor, wants_turn};
use super::deal::{live_seats_facts, seek_finds};
use super::dealing::{found_is_next, is_next};
use super::table::{bets, bettors, live_seats, seat_of, seat_of_facts};
use super::view::{GameView, OutcomeView, PlayerView};
use super::{ActionKind, ActionLogEntry, GameError, PlayerAction, Stage};

verus! {

// ---- what an action does ----

/// A raise that is accepted goes above the bet, by the least raise or more unless it
/// is all that the player has, and it is not more than that.
pub proof fn no_raise_is_too_small(g: GameView, idx: int, target: u64)
    requires
        0 <= idx < g.players.len(),
        g.applied(idx, PlayerAction::RaiseTo(target)) is Ok,
    ensures
        target > g.current_bet,
        target >= g.current_bet + g.min_raise || target == g.players[idx].bet_in_round + g.players[idx].chips,
        target > g.players[idx].bet_in_round ==> target <= g.players[idx].bet_in_round + g.players[idx].chips,
{
}

/// And a raise like that is never refused.
pub proof fn a_proper_raise_is_accepted(g: GameView, idx: int, target: u64)
    requires
        0 <= idx < g.players.len(),
        target > g.current_bet,
        target >= g.current_bet + g.min_raise || target == g.players[idx].bet_in_round + g.players[idx].chips,
        target <= g.players[idx].bet_in_round + g.players[idx].chips,
        g.players[idx].chips >= 0,
    ensures
        g.applied(idx, PlayerAction::RaiseTo(target)) is Ok,
{
}

/// Why a raise is refused: it is no raise; or it is too small and the player could
/// have raised by more; or the player has not so many chips.
pub proof fn why_a_raise_is_refused(g: GameView, idx: int, target: u64)
    requires
        g.wf(),
        0 <= idx < g.players.len(),
    ensures
        ({
            let has = g.players[idx].bet_in_round + g.players[idx].chips;
            match g.applied(idx, PlayerAction::RaiseTo(target)) {
                Ok(_) => true,
                Err(GameError::RaiseTooLow(bet)) => target <= g.current_bet && bet == g.current_bet as u64,
                Err(GameError::RaiseTooSmall(least)) => g.current_bet < target < g.current_bet + g.min_raise && target < has && least
                    == g.min_raise as u64,
                Err(GameError::NotEnoughChips) => target > g.current_bet && target > has,
                Err(_) => false,
            }
        }),
{
    assert(g.players[idx].chips >= 0 && g.players[idx].bet_in_round >= 0);
}

/// The least raise of a betting round never falls, but for a raise by all chips
/// that is smaller.
pub proof fn the_least_raise_does_not_fall(g: GameView, idx: int, action: PlayerAction)
    requires
        g.wf(),
        0 <= idx < g.players.len(),
        g.applied(idx, action) is Ok,
    ensures
        ({
            let h = g.applied(idx, action)->Ok_0.0;
            &&& h.min_raise >= g.min_raise || (action matches PlayerAction::RaiseTo(target) && target == g.players[idx].bet_in_round
                + g.players[idx].chips)
            &&& h.current_bet > g.current_bet + g.min_raise ==> h.min_raise == h.current_bet - g.current_bet
            &&& h.current_bet == g.current_bet ==> h.min_raise == g.min_raise
        }),
{
    match action {
        PlayerAction::RaiseTo(target) => {
            no_raise_is_too_small(g, idx, target);
        },
        _ => {},
    }
}

/// A check is for whoever has met the bet, a call for whoever has not, and all-in
/// for whoever has chips. Folding is always possible.
pub proof fn when_an_action_is_refused(g: GameView, idx: int)
    requires
        g.wf(),
        0 <= idx < g.players.len(),
    ensures
        ({
            let p = g.players[idx];
            &&& g.applied(idx, PlayerAction::Fold) is Ok
            &&& p.bet_in_round >= g.current_bet ==> g.applied(idx, PlayerAction::Check) is Ok
            &&& p.bet_in_round < g.current_bet ==> g.applied(idx, PlayerAction::Check) == Err::<(GameView, ActionKind, int), GameError>(
                GameError::MustCall((g.current_bet - p.bet_in_round) as u64),
            )
            &&& p.bet_in_round < g.current_bet ==> g.applied(idx, PlayerAction::Call) is Ok
            &&& p.bet_in_round >= g.current_bet ==> g.applied(idx, PlayerAction::Call) == Err::<(GameView, ActionKind, int), GameError>(
                GameError::NothingToCall,
            )
            &&& p.chips > 0 ==> g.applied(idx, PlayerAction::AllIn) is Ok
            &&& p.chips == 0 ==> g.applied(idx, PlayerAction::AllIn) == Err::<(GameView, ActionKind, int), GameError>(GameError::NoChips)
        }),
{
}

/// Whether nothing about a player changed but that they may have to act again.
pub open spec fn untouched(before: PlayerView, after: PlayerView) -> bool {
    after == (PlayerView { acted_this_round: after.acted_this_round, ..before })
}

/// What an action does: chips move from the player to the bets, and nobody else's
/// do. A call brings the player to the bet or takes all chips, all-in takes all
/// chips, a raise brings the player to its target. The bet to meet is the highest.
pub proof fn what_an_action_does(g: GameView, idx: int, action: PlayerAction)
    requires
        g.wf(),
        g.stage.betting(),
        0 <= idx < g.players.len(),
        !g.players[idx].all_in,
        !g.players[idx].folded,
        !g.players[idx].sat_out,
        g.applied(idx, action) is Ok,
    ensures
        ({
            let (h, kind, amount) = g.applied(idx, action)->Ok_0;
            let p = g.players[idx];
            let q = h.players[idx];
            let paid = p.chips - q.chips;
            &&& h.players.len() == g.players.len()
            &&& forall|i: int| 0 <= i < g.players.len() && i != idx ==> untouched(g.players[i], #[trigger] h.players[i])
            &&& 0 <= paid <= p.chips
            &&& q == (PlayerView {
                chips: p.chips - paid,
                bet_in_round: p.bet_in_round + paid,
                total_bet: p.total_bet + paid,
                folded: action is Fold,
                all_in: paid > 0 && q.chips == 0,
                ..p
            })
            &&& action is Fold || action is Check ==> paid == 0
            &&& action is Call ==> q.bet_in_round == g.current_bet || q.bet_in_round < g.current_bet && q.chips == 0
            &&& action is AllIn ==> q.chips == 0
            &&& action matches PlayerAction::RaiseTo(target) ==> q.bet_in_round == target
            &&& h.current_bet == (if q.bet_in_round > g.current_bet { q.bet_in_round } else { g.current_bet })
            &&& amount == (if action is Fold || action is Check { 0 } else { q.bet_in_round })
            &&& kind == (match action {
                PlayerAction::Fold => ActionKind::Fold,
                PlayerAction::Check => ActionKind::Check,
                PlayerAction::Call => ActionKind::Call,
                _ => if h.current_bet <= g.current_bet {
                    ActionKind::AllIn
                } else if g.community.len() == 0 && q.bet_in_round == g.big_blind {
                    ActionKind::Bet
                } else {
                    ActionKind::Raise
                },
            })
        }),
{
    let (h, kind, amount) = g.applied(idx, action)->Ok_0;
    assert(g.player_wf(g.players[idx]));
    assert forall|i: int| 0 <= i < g.players.len() && i != idx implies untouched(g.players[i], #[trigger] h.players[i]) by {}
}

/// After a raise everybody who can still bet has to act again, and otherwise nobody
/// who has acted has to.
pub proof fn who_has_to_act_again(g: GameView, idx: int, action: PlayerAction)
    requires
        0 <= idx < g.players.len(),
        g.applied(idx, action) is Ok,
    ensures
        ({
            let h = g.applied(idx, action)->Ok_0.0;
            forall|i: int| 0 <= i < g.players.len() && i != idx ==> (#[trigger] h.players[i]).acted_this_round == (
            g.players[i].acted_this_round && (h.current_bet == g.current_bet || g.players[i].folded || g.players[i].all_in
                || g.players[i].sat_out))
        }),
{
    let h = g.applied(idx, action)->Ok_0.0;
    assert forall|i: int| 0 <= i < g.players.len() && i != idx implies (#[trigger] h.players[i]).acted_this_round == (
    g.players[i].acted_this_round && (h.current_bet == g.current_bet || g.players[i].folded || g.players[i].all_in
        || g.players[i].sat_out)) by {}
}

/// An action changes bets and players alone.
pub proof fn an_action_moves_no_card(g: GameView, idx: int, action: PlayerAction)
    requires
        0 <= idx < g.players.len(),
        g.applied(idx, action) is Ok,
    ensures
        ({
            let h = g.applied(idx, action)->Ok_0.0;
            h == (GameView { players: h.players, current_bet: h.current_bet, min_raise: h.min_raise, ..g })
        }),
{
}

// ---- who may act ----

/// The seat that somebody has is theirs alone.
proof fn seat_is_theirs(g: GameView, open_id: Seq<char>, i: int)
    requires
        g.wf(),
        0 <= i < g.players.len(),
        g.players[i].open_id == open_id,
    ensures
        seat_of(g.players, open_id, 0) == Some(i),
{
    seat_of_facts(g.players, open_id, 0);
    match seat_of(g.players, open_id, 0) {
        Some(j) => {
            if j < i {
                assert(g.players[j].open_id != g.players[i].open_id);
            } else if i < j {
                assert(g.players[i].open_id != g.players[j].open_id);
            }
        },
        None => {},
    }
}

/// Who acts is seated, has the turn, and is still in the betting; the action is one
/// that can be taken. It is written down, the player has acted, and the hand goes
/// on from there.
pub proof fn who_may_act(g: GameView, open_id: Seq<char>, action: PlayerAction)
    requires
        g.wf(),
    ensures
        ({
            let at = g.current_idx;
            let betting = g.stage == Stage::PreFlop || g.stage == Stage::Flop || g.stage == Stage::Turn || g.stage == Stage::River;
            let seated = exists|i: int| 0 <= i < g.players.len() && (#[trigger] g.players[i]).open_id == open_id;
            let turn = 0 <= at < g.players.len() && g.players[at].open_id == open_id;
            let r = g.act_result(open_id, action);
            if !betting {
                r == Err::<(GameView, OutcomeView), GameError>(GameError::NotBetting)
            } else if !seated {
                r == Err::<(GameView, OutcomeView), GameError>(GameError::NotAtTable)
            } else if !turn {
                r == Err::<(GameView, OutcomeView), GameError>(GameError::NotYourTurn)
            } else if g.players[at].folded || g.players[at].all_in || g.players[at].sat_out {
                r == Err::<(GameView, OutcomeView), GameError>(GameError::DoneForThisHand)
            } else {
                match g.applied(at, action) {
                    Err(e) => r == Err::<(GameView, OutcomeView), GameError>(e),
                    Ok((h, kind, amount)) => {
                        let log = ActionLogEntry { player_idx: at as usize, kind, amount: amount as u64 };
                        &&& r is Ok
                        &&& r == (GameView {
                            action_log: g.action_log.push(log),
                            players: h.players.update(at, PlayerView { acted_this_round: true, ..h.players[at] }),
                            ..h
                        }).settled(at, log)
                    },
                }
            }
        }),
{
    act_facts(g, open_id, action);
    seat_of_facts(g.players, open_id, 0);
    if exists|i: int| 0 <= i < g.players.len() && (#[trigger] g.players[i]).open_id == open_id {
        let i = choose|i: int| 0 <= i < g.players.len() && (#[trigger] g.players[i]).open_id == open_id;
        seat_is_theirs(g, open_id, i);
        if 0 <= g.current_idx < g.players.len() && g.players[g.current_idx].open_id == open_id {
            seat_is_theirs(g, open_id, g.current_idx);
        }
    }
    if g.stage.betting() && 0 <= g.current_idx < g.players.len() && g.applied(g.current_idx, action) is Ok {
        an_action_moves_no_card(g, g.current_idx, action);
    }
}

// ---- what follows from an action ----

/// Who can still bet.
pub open spec fn may_bet() -> spec_fn(PlayerView) -> bool {
    |p: PlayerView| !p.folded && !p.all_in && !p.sat_out
}

/// Who has still to act: not asked yet this round, or behind the bet.
pub open spec fn has_to_act(bet: int) -> spec_fn(PlayerView) -> bool {
    |p: PlayerView| !p.folded && !p.all_in && !p.sat_out && (!p.acted_this_round || p.bet_in_round < bet)
}

/// Whether `w` is the only one still in.
pub open spec fn alone(players: Seq<PlayerView>, w: int) -> bool {
    &&& 0 <= w < players.len()
    &&& !players[w].folded
    &&& !players[w].sat_out
    &&& forall|i: int| 0 <= i < players.len() && i != w ==> (#[trigger] players[i]).folded || players[i].sat_out
}

proof fn alone_is_the_live_seat(players: Seq<PlayerView>, w: int)
    requires
        alone(players, w),
    ensures
        live_seats(players) == seq![w],
{
    live_seats_facts(players);
    let live = live_seats(players);
    assert(players[w].live());
    assert(live.contains(w));
    assert forall|k: int| 0 <= k < live.len() implies live[k] == w by {
        assert(players[live[k]].live());
    }
    if live.len() > 1 {
        assert(live[0] < live[1]);
    }
    assert(live =~= seq![w]);
}

/// The last one in takes all bets without a showdown, and the hand is over.
pub proof fn the_last_one_in_takes_the_pot(g: GameView, idx: int, log: ActionLogEntry, w: int)
    requires
        alone(g.players, w),
    ensures
        ({
            let r = g.settled(idx, log);
            &&& r is Ok
            &&& r->Ok_0.0 == (GameView { stage: Stage::Ended, players: r->Ok_0.0.players, ..g })
            &&& r->Ok_0.0.players.len() == g.players.len()
            &&& forall|i: int| 0 <= i < g.players.len() ==> #[trigger] r->Ok_0.0.players[i] == (PlayerView {
                chips: g.players[i].chips + if i == w { bets(g.players) } else { 0 },
                total_bet: 0,
                bet_in_round: 0,
                ..g.players[i]
            })
            &&& r->Ok_0.1.log == log
            &&& r->Ok_0.1.stage_cards is None
            &&& r->Ok_0.1.extra_stages.len() == 0
            &&& r->Ok_0.1.summary matches Some(s) && s.showdowns.len() == 0 && s.payouts.len() == 1 && s.payouts[0].amount == bets(g.players)
                && s.payouts[0].winners == seq![w] && s.payouts[0].note == "未摊牌"@
        }),
{
    alone_is_the_live_seat(g.players, w);
    let h = g.settled(idx, log)->Ok_0.0;
    assert forall|i: int| 0 <= i < g.players.len() implies #[trigger] h.players[i] == (PlayerView {
        chips: g.players[i].chips + if i == w { bets(g.players) } else { 0 },
        total_bet: 0,
        bet_in_round: 0,
        ..g.players[i]
    }) by {}
}

/// While two are in, nobody gets the pot before the round is over: the turn goes to
/// the next one round the table who has still to act.
pub proof fn the_turn_goes_round(g: GameView, idx: int, log: ActionLogEntry)
    requires
        0 <= idx < g.players.len(),
        exists|i: int, j: int| 0 <= i < j < g.players.len() && !(#[trigger] g.players[i]).folded && !g.players[i].sat_out && !(
        #[trigger] g.players[j]).folded && !g.players[j].sat_out,
        exists|i: int| 0 <= i < g.players.len() && has_to_act(g.current_bet)(#[trigger] g.players[i]),
    ensures
        ({
            let r = g.settled(idx, log);
            &&& r is Ok
            &&& r->Ok_0.0 == (GameView { current_idx: r->Ok_0.0.current_idx, ..g })
            &&& is_next(g.players, has_to_act(g.current_bet), idx, r->Ok_0.0.current_idx)
            &&& r->Ok_0.1 == (OutcomeView { log, stage_cards: None, extra_stages: Seq::empty(), summary: None })
        }),
{
    two_are_in(g.players);
    let i = choose|i: int| 0 <= i < g.players.len() && has_to_act(g.current_bet)(#[trigger] g.players[i]);
    assert(wants_turn(g.current_bet)(g.players[i]));
    assert(!g.round_complete()) by {
        assert(g.players[i].can_bet());
    }
    seek_finds(g.players, wants_turn(g.current_bet), idx, i);
    found_is_next(g.players, wants_turn(g.current_bet), g.players, has_to_act(g.current_bet), idx);
}

proof fn two_are_in(players: Seq<PlayerView>)
    requires
        exists|i: int, j: int| 0 <= i < j < players.len() && !(#[trigger] players[i]).folded && !players[i].sat_out && !(
        #[trigger] players[j]).folded && !players[j].sat_out,
    ensures
        live_seats(players).len() >= 2,
{
    let (i, j) = choose|i: int, j: int| 0 <= i < j < players.len() && !(#[trigger] players[i]).folded && !players[i].sat_out && !(
    #[trigger] players[j]).folded && !players[j].sat_out;
    live_seats_facts(players);
    let live = live_seats(players);
    assert(players[i].live() && players[j].live());
    assert(live.contains(i) && live.contains(j));
    let a = choose|a: int| 0 <= a < live.len() && live[a] == i;
    let b = choose|b: int| 0 <= b < live.len() && live[b] == j;
    assert(a != b);
}

// ---- the board ----

/// Whether `after` is the table with `n` cards revealed: one card is burnt, and the
/// next ones from the top of the deck lie on the board in that order.
pub open spec fn reveals(g: GameView, after: GameView, n: int) -> bool {
    let top = g.deck.len() - 1;
    &&& after.deck == g.deck.take(g.deck.len() - 1 - n)
    &&& after.community.len() == g.community.len() + n
    &&& forall|k: int| 0 <= k < g.community.len() ==> #[trigger] after.community[k] == g.community[k]
    &&& forall|k: int| 0 <= k < n ==> after.community[g.community.len() + k] == #[trigger] g.deck[top - 1 - k]
}

/// The flop is three cards, the turn and the river are one each, and then comes the
/// showdown. Before each a card is burnt.
pub proof fn the_board_is_dealt(g: GameView)
    requires
        g.stage is PreFlop ==> g.deck.len() >= 4,
        g.stage is Flop || g.stage is Turn ==> g.deck.len() >= 2,
    ensures
        ({
            let h = g.next_street();
            &&& h == (GameView { stage: h.stage, deck: h.deck, community: h.community, ..g })
            &&& g.stage is PreFlop ==> h.stage == Stage::Flop && reveals(g, h, 3)
            &&& g.stage is Flop ==> h.stage == Stage::Turn && reveals(g, h, 1)
            &&& g.stage is Turn ==> h.stage == Stage::River && reveals(g, h, 1)
            &&& g.stage is River ==> h.stage == Stage::Showdown && h.deck == g.deck && h.community == g.community
        }),
{
    let h = g.next_street();
    let n = g.next_stage().1;
    if n > 0 {
        let d = below(g.deck, 1);
        assert(on_top(d, n) =~= Seq::new(n as nat, |k: int| g.deck[g.deck.len() - 2 - k]));
        assert(h.deck =~= g.deck.take(g.deck.len() - 1 - n));
        assert forall|k: int| 0 <= k < n implies h.community[g.community.len() + k] == #[trigger] g.deck[g.deck.len() - 1 - 1 - k] by {
            assert(h.community[g.community.len() + k] == on_top(d, n)[k]);
        }
    }
}

/// What is told of a new street is what it put on the board.
pub proof fn the_board_is_told(g: GameView)
    requires
        g.stage is PreFlop ==> g.deck.len() >= 4,
        g.stage is Flop || g.stage is Turn ==> g.deck.len() >= 2,
    ensures
        g.next_reveal() == (if g.stage is PreFlop || g.stage is Flop || g.stage is Turn {
            Some((g.next_street().stage, g.next_street().community.skip(g.community.len() as int)))
        } else {
            None
        }),
{
    let n = g.next_stage().1;
    if n > 0 {
        let d = below(g.deck, 1);
        assert(g.next_street().community.skip(g.community.len() as int) =~= on_top(d, n));
    }
}

/// With nobody left to bet against, the whole board is dealt at once.
pub proof fn the_board_is_run_out(g: GameView)
    requires
        g.stage is PreFlop || g.stage is Flop || g.stage is Turn || g.stage is River || g.stage is Showdown,
        g.deck.len() >= g.cards_to_come(),
        g.community.len() == g.board_size(),
    ensures
        ({
            let h = g.run_out();
            let n = g.deck.len() as int;
            &&& h == (GameView { stage: Stage::Showdown, deck: h.deck, community: h.community, ..g })
            &&& g.stage is PreFlop ==> h.community == seq![
                g.deck[n - 2],
                g.deck[n - 3],
                g.deck[n - 4],
                g.deck[n - 6],
                g.deck[n - 8],
            ]
            &&& g.stage is Flop ==> h.community == g.community.push(g.deck[n - 2]).push(g.deck[n - 4])
            &&& g.stage is Turn ==> h.community == g.community.push(g.deck[n - 2])
            &&& g.stage is River || g.stage is Showdown ==> h.community == g.community
            &&& h.community.len() == 5
        }),
    decreases g.streets_left(),
{
    if g.streets_left() > 0 {
        let s = g.next_street();
        the_board_is_dealt(g);
        assert(g.run_out() == s.run_out());
        the_board_is_run_out(s);
        let n = g.deck.len() as int;
        let h = g.run_out();
        if g.stage is PreFlop {
            assert(s.community[0] == g.deck[n - 2] && s.community[1] == g.deck[n - 3] && s.community[2] == g.deck[n - 4]) by {
                assert(s.community[g.community.len() + 0int] == g.deck[n - 1 - 1 - 0]);
                assert(s.community[g.community.len() + 1int] == g.deck[n - 1 - 1 - 1]);
                assert(s.community[g.community.len() + 2int] == g.deck[n - 1 - 1 - 2]);
            }
            assert(h.community =~= seq![g.deck[n - 2], g.deck[n - 3], g.deck[n - 4], g.deck[n - 6], g.deck[n - 8]]);
        } else if g.stage is Flop {
            assert(s.community =~= g.community.push(g.deck[n - 2])) by {
                assert(s.community[g.community.len() + 0int] == g.deck[n - 1 - 1 - 0]);
            }
        } else if g.stage is Turn {
            assert(s.community =~= g.community.push(g.deck[n - 2])) by {
                assert(s.community[g.community.len() + 0int] == g.deck[n - 1 - 1 - 0]);
            }
        }
    }
}

// ---- the end of a betting round ----

/// How many of the first `n` players can still bet.
pub open spec fn betting_players(players: Seq<PlayerView>, n: nat) -> nat
    decreases n,
{
    if n == 0 {
        0
    } else {
        betting_players(players, (n - 1) as nat) + if may_bet()(players[n - 1]) { 1nat } else { 0nat }
    }
}

proof fn bettors_counted(players: Seq<PlayerView>, n: nat)
    requires
        n <= players.len(),
    ensures
        bettors(players.take(n as int)) == betting_players(players, n),
    decreases n,
{
    if n > 0 {
        bettors_counted(players, (n - 1) as nat);
        assert(players.take(n as int).drop_last() =~= players.take(n - 1));
    }
}

/// Whether a round begins anew: nobody has acted or bet in it.
pub open spec fn new_round(before: GameView, after: GameView) -> bool {
    &&& after.players.len() == before.players.len()
    &&& forall|i: int| 0 <= i < before.players.len() ==> #[trigger] after.players[i] == (PlayerView {
        bet_in_round: 0,
        acted_this_round: false,
        ..before.players[i]
    })
    &&& after.current_bet == 0
    &&& after.min_raise == before.big_blind
}

/// When everybody who can bet has acted and met the bet, the next street is dealt. If
/// two can still bet, the first of them behind the button has the turn.
pub proof fn the_next_street_begins(g: GameView, idx: int, log: ActionLogEntry)
    requires
        g.wf(),
        g.stage.betting(),
        !(g.stage is River),
        exists|i: int, j: int| 0 <= i < j < g.players.len() && !(#[trigger] g.players[i]).folded && !g.players[i].sat_out && !(
        #[trigger] g.players[j]).folded && !g.players[j].sat_out,
        forall|i: int| 0 <= i < g.players.len() && may_bet()(g.players[i]) ==> (#[trigger] g.players[i]).acted_this_round
            && g.players[i].bet_in_round == g.current_bet,
        betting_players(g.players, g.players.len()) >= 2,
    ensures
        ({
            let r = g.settled(idx, log);
            let h = r->Ok_0.0;
            &&& r is Ok
            &&& new_round(g, h)
            &&& is_next(h.players, may_bet(), g.dealer_idx, h.current_idx)
            &&& g.stage is PreFlop ==> h.stage == Stage::Flop && reveals(g, h, 3)
            &&& g.stage is Flop ==> h.stage == Stage::Turn && reveals(g, h, 1)
            &&& g.stage is Turn ==> h.stage == Stage::River && reveals(g, h, 1)
            &&& h.action_log == g.action_log
            &&& h.dealer_idx == g.dealer_idx
            &&& r->Ok_0.1 == (OutcomeView {
                log,
                stage_cards: Some((h.stage, h.community.skip(g.community.len() as int))),
                extra_stages: Seq::empty(),
                summary: None,
            })
        }),
{
    let closed = g.round_closed();
    let s = closed.next_street();
    two_are_in(g.players);
    assert(g.round_complete()) by {
        assert forall|i: int| 0 <= i < g.players.len() && g.players[i].can_bet() implies (#[trigger] g.players[i]).acted_this_round
            && g.players[i].bet_in_round == g.current_bet by {
            assert(may_bet()(g.players[i]));
        }
    }
    closed_round(g);
    the_board_is_dealt(closed);
    the_board_is_told(closed);
    bettors_counted(s.players, s.players.len());
    assert(s.players.take(s.players.len() as int) =~= s.players);
    same_bettors(g.players, s.players, g.players.len());
    some_bettor(s.players, s.players.len());
    let j = choose|j: int| 0 <= j < s.players.len() && may_bet()(#[trigger] s.players[j]);
    assert(wants_bettor()(s.players[j]));
    seek_finds(s.players, wants_bettor(), s.dealer_idx, j);
    found_is_next(s.players, wants_bettor(), s.players, may_bet(), s.dealer_idx);
}

proof fn closed_round(g: GameView)
    ensures
        new_round(g, g.round_closed()),
{
    let h = g.round_closed();
    assert forall|i: int| 0 <= i < g.players.len() implies #[trigger] h.players[i] == (PlayerView {
        bet_in_round: 0,
        acted_this_round: false,
        ..g.players[i]
    }) by {
        assert(h.players[i] == round_cleared(g.players[i]));
    }
}

proof fn same_bettors(a: Seq<PlayerView>, b: Seq<PlayerView>, n: nat)
    requires
        n <= a.len() == b.len(),
        forall|i: int| 0 <= i < a.len() ==> #[trigger] b[i] == (PlayerView { bet_in_round: 0, acted_this_round: false, ..a[i] }),
    ensures
        betting_players(a, n) == betting_players(b, n),
    decreases n,
{
    if n > 0 {
        same_bettors(a, b, (n - 1) as nat);
        assert(b[n - 1] == PlayerView { bet_in_round: 0, acted_this_round: false, ..a[n - 1] });
    }
}

proof fn some_bettor(players: Seq<PlayerView>, n: nat)
    requires
        n <= players.len(),
        betting_players(players, n) >= 1,
    ensures
        exists|j: int| 0 <= j < players.len() && may_bet()(#[trigger] players[j]),
    decreases n,
{
    if n > 0 {
        if may_bet()(players[n - 1]) {
        } else {
            some_bettor(players, (n - 1) as nat);
        }
    }
}

/// When the betting is over, because the river was bet or fewer than two can still
/// bet, the board is complete, the hands are shown and the hand has ended.
pub proof fn the_hand_is_shown_down(g: GameView, idx: int, log: ActionLogEntry)
    requires
        g.wf(),
        g.stage.betting(),
        exists|i: int, j: int| 0 <= i < j < g.players.len() && !(#[trigger] g.players[i]).folded && !g.players[i].sat_out && !(
        #[trigger] g.players[j]).folded && !g.players[j].sat_out,
        forall|i: int| 0 <= i < g.players.len() && may_bet()(g.players[i]) ==> (#[trigger] g.players[i]).acted_this_round
            && g.players[i].bet_in_round == g.current_bet,
        g.stage is River || betting_players(g.players, g.players.len()) < 2,
    ensures
        ({
            let r = g.settled(idx, log);
            let h = r->Ok_0.0;
            let closed = g.round_closed();
            let full = closed.run_out();
            &&& r is Ok
            &&& new_round(g, closed)
            &&& h.stage == Stage::Ended
            &&& h.players == full.shown_down().players
            &&& h.community == full.community
            &&& h.action_log == g.action_log
            &&& r->Ok_0.1.log == log
            &&& r->Ok_0.1 == g.advance_outcome(log)
            &&& r->Ok_0.1.summary == Some(full.showdown_summary())
        }),
{
    let closed = g.round_closed();
    let s = closed.next_street();
    two_are_in(g.players);
    assert(g.round_complete()) by {
        assert forall|i: int| 0 <= i < g.players.len() && g.players[i].can_bet() implies (#[trigger] g.players[i]).acted_this_round
            && g.players[i].bet_in_round == g.current_bet by {
            assert(may_bet()(g.players[i]));
        }
    }
    closed_round(g);
    the_streets_end(g);
    let end = closed.streets_dealt();
    turn_given_keeps(GameView { stage: Stage::Ended, ..end.shown_down() });
}

/// Of a board that is dealt at once each street is told, in order, with its own cards.
pub proof fn each_street_is_told(g: GameView, log: ActionLogEntry)
    requires
        g.wf(),
        g.stage.betting(),
        betting_players(g.players, g.players.len()) < 2,
    ensures
        ({
            let o = g.advance_outcome(log);
            let n = g.deck.len() as int;
            &&& o.log == log
            &&& g.stage is PreFlop ==> o.stage_cards == Some((Stage::Flop, seq![g.deck[n - 2], g.deck[n - 3], g.deck[n - 4]])) && o.extra_stages
                == seq![(Stage::Turn, seq![g.deck[n - 6]]), (Stage::River, seq![g.deck[n - 8]])]
            &&& g.stage is Flop ==> o.stage_cards == Some((Stage::Turn, seq![g.deck[n - 2]])) && o.extra_stages == seq![
                (Stage::River, seq![g.deck[n - 4]]),
            ]
            &&& g.stage is Turn ==> o.stage_cards == Some((Stage::River, seq![g.deck[n - 2]])) && o.extra_stages.len() == 0
            &&& g.stage is River ==> o.stage_cards is None && o.extra_stages.len() == 0
        }),
{
    let closed = g.round_closed();
    let s = closed.next_street();
    closed_round(g);
    bettors_counted(s.players, s.players.len());
    assert(s.players.take(s.players.len() as int) =~= s.players);
    the_board_is_dealt(closed);
    same_bettors(g.players, s.players, g.players.len());
    reveals_told(closed);
    let o = g.advance_outcome(log);
    let n = g.deck.len() as int;
    if !(g.stage is River) {
        told_so_far(s);
    } else {
        assert(s.run_out_reveals() == Seq::<(Stage, Seq<Card>)>::empty());
    }
}

/// What the next street reveals.
proof fn reveals_told(g: GameView)
    requires
        g.deck.len() >= g.cards_to_come(),
    ensures
        ({
            let n = g.deck.len() as int;
            &&& g.stage is PreFlop ==> g.next_reveal() == Some((Stage::Flop, seq![g.deck[n - 2], g.deck[n - 3], g.deck[n - 4]]))
            &&& g.stage is Flop ==> g.next_reveal() == Some((Stage::Turn, seq![g.deck[n - 2]]))
            &&& g.stage is Turn ==> g.next_reveal() == Some((Stage::River, seq![g.deck[n - 2]]))
            &&& g.stage is River ==> g.next_reveal() is None
        }),
{
    let n = g.deck.len() as int;
    let d = below(g.deck, 1);
    if g.stage is PreFlop {
        assert(on_top(d, 3) =~= seq![g.deck[n - 2], g.deck[n - 3], g.deck[n - 4]]);
    } else if g.stage is Flop || g.stage is Turn {
        assert(on_top(d, 1) =~= seq![g.deck[n - 2]]);
    }
}

proof fn told_so_far(g: GameView)
    requires
        g.stage is Flop || g.stage is Turn || g.stage is River,
        g.deck.len() >= g.cards_to_come(),
    ensures
        ({
            let n = g.deck.len() as int;
            &&& g.stage is Flop ==> g.run_out_reveals() == seq![(Stage::Turn, seq![g.deck[n - 2]]), (Stage::River, seq![g.deck[n - 4]])]
            &&& g.stage is Turn ==> g.run_out_reveals() == seq![(Stage::River, seq![g.deck[n - 2]])]
            &&& g.stage is River ==> g.run_out_reveals().len() == 0
        }),
    decreases g.streets_left(),
{
    let n = g.deck.len() as int;
    let s = g.next_street();
    the_board_is_dealt(g);
    reveals_told(g);
    if g.stage is River {
        assert(s.run_out_reveals() == Seq::<(Stage, Seq<Card>)>::empty());
        assert(g.run_out_reveals() =~= Seq::<(Stage, Seq<Card>)>::empty());
    } else {
        told_so_far(s);
        if g.stage is Flop {
            assert(s.deck[n - 4] == g.deck[n - 4]);
            assert(g.run_out_reveals() =~= seq![(Stage::Turn, seq![g.deck[n - 2]]), (Stage::River, seq![g.deck[n - 4]])]);
        } else {
            assert(g.run_out_reveals() =~= seq![(Stage::River, seq![g.deck[n - 2]])]);
        }
    }
}

proof fn turn_given_keeps(g: GameView)
    ensures
        g.turn_given() == (GameView { current_idx: g.turn_given().current_idx, ..g }),
{
}

proof fn the_streets_end(g: GameView)
    requires
        g.wf(),
        g.stage.betting(),
        g.stage is River || betting_players(g.players, g.players.len()) < 2,
    ensures
        g.round_closed().streets_dealt() == g.round_closed().run_out(),
        g.round_closed().run_out().stage == Stage::Showdown,
        g.round_closed().run_out().action_log == g.action_log,
{
    let closed = g.round_closed();
    let s = closed.next_street();
    closed_round(g);
    the_board_is_dealt(closed);
    the_board_is_run_out(closed);
    assert(closed.run_out() == s.run_out());
    if g.stage is River {
        assert(s.run_out() == s);
    } else {
        bettors_counted(s.players, s.players.len());
        assert(s.players.take(s.players.len() as int) =~= s.players);
        same_bettors(g.players, s.players, g.players.len());
    }
}

} // verus!
