//! What an AI player at the poker table is told when it is their turn.

use vstd::prelude::*;
use vstd::string::*;
use crate::game::table::money_bounds;
use crate::game::view::{GameView, PlayerView};
use crate::game::{ActionLogEntry, Game};
use crate::llm::{describes, DecisionContext};
use crate::poker::Card;
use crate::text::{append_text, decimal, no_texts, plus, plus_number, texts};
use super::cards::{action_text, describe_action};

verus! {

/// What is said of another player: name, chips, what became of them, and their
/// bet in this round.
pub open spec fn other_line(p: PlayerView) -> Seq<char> {
    let status = if p.sat_out {
        "坐出"@
    } else if p.folded {
        "已弃牌"@
    } else if p.all_in {
        "全押"@
    } else {
        "在局"@
    };
    p.name + " | 筹码 "@ + decimal(p.chips as nat) + " | "@ + status + " | 本轮已下 "@ + decimal(p.bet_in_round as nat)
}

/// What is said of the first `n` players but for the one at `seat`.
pub open spec fn other_lines(players: Seq<PlayerView>, seat: int, n: nat) -> Seq<Seq<char>>
    decreases n,
{
    if n == 0 {
        Seq::empty()
    } else if n - 1 == seat {
        other_lines(players, seat, (n - 1) as nat)
    } else {
        other_lines(players, seat, (n - 1) as nat).push(other_line(players[n - 1]))
    }
}

/// An action of this hand in words.
pub open spec fn log_line(players: Seq<PlayerView>, l: ActionLogEntry) -> Seq<char> {
    (if l.player_idx < players.len() { players[l.player_idx as int].name } else { "?"@ }) + " "@ + action_text(
        l.kind,
        l.amount as int,
    )
}

fn tell_other(g: &Game, i: usize) -> (r: String)
    requires
        i < g.players@.len(),
    ensures
        r@ == other_line(g@.players[i as int]),
{
    let p = &g.players[i];
    assert(g@.players[i as int] == p@);
    let status = if p.sat_out {
        "坐出"
    } else if p.folded {
        "已弃牌"
    } else if p.all_in {
        "全押"
    } else {
        "在局"
    };
    let s = plus_number(plus(p.name.clone(), " | 筹码 "), p.chips);
    let s = plus(plus(s, " | "), status);
    plus_number(plus(s, " | 本轮已下 "), p.bet_in_round)
}

fn tell_others(g: &Game, seat: usize) -> (r: Vec<String>)
    ensures
        texts(r@) == other_lines(g@.players, seat as int, g@.players.len()),
{
    let mut out = no_texts();
    let mut i: usize = 0;
    while i < g.players.len()
        invariant
            i <= g.players@.len() == g@.players.len(),
            texts(out@) == other_lines(g@.players, seat as int, i as nat),
        decreases g.players@.len() - i,
    {
        if i != seat {
            append_text(&mut out, tell_other(g, i));
        }
        i = i + 1;
    }
    out
}

fn tell_history(g: &Game) -> (r: Vec<String>)
    ensures
        texts(r@) == g@.action_log.map_values(|l: ActionLogEntry| log_line(g@.players, l)),
{
    let ghost want = g@.action_log.map_values(|l: ActionLogEntry| log_line(g@.players, l));
    let mut out = no_texts();
    let mut i: usize = 0;
    while i < g.action_log.len()
        invariant
            want == g@.action_log.map_values(|l: ActionLogEntry| log_line(g@.players, l)),
            i <= g.action_log@.len() == want.len(),
            texts(out@) =~= want.take(i as int),
        decreases want.len() - i,
    {
        let l = g.action_log[i];
        assert(g@.players.len() == g.players@.len());
        let name = if l.player_idx < g.players.len() {
            assert(g@.players[l.player_idx as int] == g.players@[l.player_idx as int]@);
            g.players[l.player_idx].name.clone()
        } else {
            "?".to_owned()
        };
        let line = plus(plus(name, " "), describe_action(l.kind, l.amount).as_str());
        assert(line@ == want[i as int]);
        assert(want.take(i + 1) =~= want.take(i as int).push(want[i as int]));
        append_text(&mut out, line);
        i = i + 1;
    }
    assert(want.take(i as int) =~= want);
    out
}

/// The least that a raise must come to.
pub open spec fn least_raise_to(g: GameView) -> int {
    if g.current_bet + g.min_raise > g.big_blind { g.current_bet + g.min_raise } else { g.big_blind }
}

fn copy_cards(cards: &Vec<Card>) -> (r: Vec<Card>)
    ensures
        r@ == cards@,
{
    let mut out: Vec<Card> = Vec::new();
    out.extend_from_slice(cards.as_slice());
    assert(out@ =~= cards@);
    out
}

/// How many of the first `n` players but for the one at `seat` are in the hand.
pub open spec fn opponents(players: Seq<PlayerView>, seat: int, n: nat) -> nat
    decreases n,
{
    if n == 0 {
        0
    } else {
        opponents(players, seat, (n - 1) as nat) + if n - 1 != seat && players[n - 1].live() { 1nat } else { 0nat }
    }
}

/// How many the player at `seat` plays against.
pub fn count_opponents(g: &Game, seat: usize) -> (r: usize)
    ensures
        r == opponents(g@.players, seat as int, g@.players.len()),
{
    let mut n: usize = 0;
    let mut i: usize = 0;
    while i < g.players.len()
        invariant
            i <= g.players@.len() == g@.players.len(),
            n <= i,
            n == opponents(g@.players, seat as int, i as nat),
        decreases g.players@.len() - i,
    {
        assert(g@.players[i as int] == g.players@[i as int]@);
        if i != seat && !g.players[i].sat_out && !g.players[i].folded {
            n = n + 1;
        }
        i = i + 1;
    }
    n
}

/// What the player at `seat` is told; `equity` is their win rate in percent. A
/// least raise beyond what can be counted is told as the largest number.
pub fn decision_context(g: &Game, seat: usize, equity: Option<u64>) -> (r: DecisionContext)
    requires
        g@.wf(),
        seat < g@.players.len(),
    ensures
        r.mode == g@.mode,
        r.stage@ == g@.stage.title(),
        r.hand_count == g@.hand_count,
        r.pot == crate::game::table::bets(g@.players),
        r.current_bet == g@.current_bet,
        r.big_blind == g@.big_blind,
        r.my_name@ == g@.players[seat as int].name,
        r.my_bet_in_round == g@.players[seat as int].bet_in_round,
        r.hole@ == g@.players[seat as int].hole,
        r.community@ == g@.community,
        r.equity == equity,
        r.persona == g@.players[seat as int].persona,
        texts(r.others@) == other_lines(g@.players, seat as int, g@.players.len()),
        texts(r.history@) == g@.action_log.map_values(|l: ActionLogEntry| log_line(g@.players, l)),
        r.my_stack == g@.players[seat as int].chips,
        r.my_max_to == g@.players[seat as int].chips + g@.players[seat as int].bet_in_round,
        r.to_call == (if g@.current_bet > r.my_bet_in_round { g@.current_bet - r.my_bet_in_round } else { 0 }),
        least_raise_to(g@) <= u64::MAX ==> describes(r, g@, seat as int),
        least_raise_to(g@) > u64::MAX ==> r.min_raise_to == u64::MAX,
{
    proof {
        money_bounds(g@.players);
    }
    let p = &g.players[seat];
    assert(g@.players[seat as int] == p@);
    let to_call: u64 = if g.current_bet > p.bet_in_round { g.current_bet - p.bet_in_round } else { 0 };
    let next: u64 = g.current_bet.saturating_add(g.min_raise);
    DecisionContext {
        mode: g.mode,
        stage: g.stage.label().to_owned(),
        hand_count: g.hand_count,
        pot: g.pot_total(),
        current_bet: g.current_bet,
        big_blind: g.big_blind,
        my_name: p.name.clone(),
        my_stack: p.chips,
        my_bet_in_round: p.bet_in_round,
        to_call,
        my_max_to: p.chips + p.bet_in_round,
        min_raise_to: if next > g.big_blind { next } else { g.big_blind },
        hole: copy_cards(&p.hole),
        community: copy_cards(&g.community),
        equity,
        persona: p.persona,
        others: tell_others(g, seat),
        history: tell_history(g),
    }
}

} // verus!
