//! What holds of the table as a whole.

use vstd::prelude::*;
use crate::poker::card::ordered_deck;
use crate::poker::{Card, DeckMode};
use super::betting::{act_facts, turn_is_possible};
use super::deal::{another_live, live_seats_facts, next_active, next_active_facts, started_facts, wants_live};
use super::showdown::{contenders, money_is_stacks_and_bets, paid_out, ranked_facts, scoring, stacks, winners_of};
use super::table::{bets, holes, live_seats, money, seat_of, without_id};
use super::view::{GameView, OutcomeView, PlayerView, ShowdownView};
use super::{GameError, Persona, PlayerAction, MAX_PLAYERS};

verus! {

/// Starting a hand and acting in it move chips between stacks and pot, and
/// neither make nor lose any.
pub proof fn money_is_kept(g: GameView, mode: DeckMode, deck: Seq<Card>, open_id: Seq<char>, action: PlayerAction)
    requires
        g.wf(),
        deck.to_multiset() == ordered_deck(mode).to_multiset(),
    ensures
        g.start_error() is None ==> money(g.started(mode, deck).players) == money(g.players),
        g.act_result(open_id, action) matches Ok((h, o)) ==> money(h.players) == money(g.players),
{
    if g.start_error() is None {
        started_facts(g, mode, deck);
    }
    act_facts(g, open_id, action);
}

/// After every action the hand is over or it is the turn of somebody who can
/// act; that nobody can be found to go on with does not happen.
pub proof fn the_hand_goes_on(g: GameView, open_id: Seq<char>, action: PlayerAction)
    requires
        g.wf(),
    ensures
        g.act_result(open_id, action) matches Ok((h, o)) ==> turn_is_possible(h),
        g.act_result(open_id, action) != Err::<(GameView, OutcomeView), GameError>(GameError::NoNextActor),
{
    act_facts(g, open_id, action);
}

/// A hand starts with the turn of somebody who can act, unless it is heads-up
/// and the small blind takes the dealer's last chip.
pub proof fn the_first_can_act(g: GameView, mode: DeckMode, deck: Seq<Card>)
    requires
        g.wf(),
        g.start_error() is None,
        deck.to_multiset() == ordered_deck(mode).to_multiset(),
        ({
            let d = g.hand_dealt(mode, deck);
            live_seats(d.players).len() > 2 || d.players[d.dealer_idx].chips > g.small_blind
        }),
    ensures
        turn_is_possible(g.started(mode, deck)),
{
    let d = g.hand_dealt(mode, deck);
    started_facts(g, mode, deck);
    super::deal::hand_dealt_facts(g, mode, deck);
    let s = g.started(mode, deck);
    let sb = d.small_blind_seat();
    let bb = d.big_blind_seat();
    if live_seats(d.players).len() > 2 {
        live_seats_facts(d.players);
        let behind_dealer = another_live(d.players, d.dealer_idx);
        next_active_facts(d.players, d.dealer_idx, behind_dealer);
        let other = another_live(d.players, bb);
        next_active_facts(d.players, bb, other);
        let first = d.first_seat();
        third_seat(d.players, sb, bb);
        assert(d.players[first] == PlayerView { hole: d.players[first].hole, ..super::deal::fresh(g.players[first]) });
        assert(g.players[first].chips >= 0);
    } else {
        assert(d.players[sb] == PlayerView { hole: d.players[sb].hole, ..super::deal::fresh(g.players[sb]) });
    }
}

/// With three players in the hand, the one behind the second is not the first.
proof fn third_seat(players: Seq<PlayerView>, sb: int, bb: int)
    requires
        live_seats(players).len() > 2,
        0 <= sb < players.len(),
        bb == next_active(players, sb),
        players[sb].live(),
    ensures
        next_active(players, bb) != sb,
        next_active(players, bb) != bb,
{
    let n = players.len() as int;
    live_seats_facts(players);
    let other = another_live(players, sb);
    next_active_facts(players, sb, other);
    next_active_facts(players, bb, sb);
    // A third seat that is in.
    let s = live_seats(players);
    let j = if s[0] != sb && s[0] != bb {
        s[0]
    } else if s[1] != sb && s[1] != bb {
        s[1]
    } else {
        s[2]
    };
    assert(s[0] < s[1] && s[1] < s[2]);
    assert(players[j].live() && j != sb && j != bb);
    if next_active(players, bb) == sb {
        super::deal::seek_skips(players, wants_live(), sb, j);
        super::deal::seek_skips(players, wants_live(), bb, j);
    }
}

/// During a hand no two players hold the same card, and no player holds a card
/// that lies on the board or is still in the deck.
pub proof fn no_card_is_dealt_twice(g: GameView, i: int, j: int, c: Card)
    requires
        g.wf(),
        g.stage.betting(),
        0 <= i < g.players.len(),
        0 <= j < g.players.len(),
        g.players[i].hole.contains(c),
    ensures
        i != j ==> !g.players[j].hole.contains(c),
        !g.community.contains(c),
        !g.deck.contains(c),
{
    broadcast use vstd::multiset::group_multiset_axioms, vstd::seq_lib::group_to_multiset_ensures;

    assert(g.in_play().count(c) <= 1);
    super::showdown::hole_in_play(g.players, i, c);
    if i != j && g.players[j].hole.contains(c) {
        two_holes_in_play(g.players, i, j, c);
    }
}

proof fn two_holes_in_play(players: Seq<PlayerView>, i: int, j: int, c: Card)
    requires
        0 <= i < players.len(),
        0 <= j < players.len(),
        i != j,
    ensures
        holes(players).count(c) >= players[i].hole.to_multiset().count(c) + players[j].hole.to_multiset().count(c),
    decreases players.len(),
{
    broadcast use vstd::multiset::group_multiset_axioms;

    let last = players.len() - 1;
    if i == last {
        super::showdown::hole_in_play(players.drop_last(), j, c);
    } else if j == last {
        super::showdown::hole_in_play(players.drop_last(), i, c);
    } else {
        two_holes_in_play(players.drop_last(), i, j, c);
    }
}

/// After a raise everybody else who can still bet has to act again.
pub proof fn a_raise_asks_everybody_again(g: GameView, idx: int, target: u64)
    requires
        0 <= idx < g.players.len(),
        g.applied(idx, PlayerAction::RaiseTo(target)) is Ok,
    ensures
        ({
            let (h, kind, amount) = g.applied(idx, PlayerAction::RaiseTo(target))->Ok_0;
            &&& h.current_bet == target
            &&& forall|i: int| 0 <= i < h.players.len() && i != idx && h.players[i].can_bet() ==> !(
            #[trigger] h.players[i]).acted_this_round
        }),
{
}

/// Whoever wins a pot has a hand that no contender for it beats.
pub proof fn winners_have_the_best_hand(g: GameView, pot: (int, Seq<int>), w: int, i: int)
    requires
        winners_of(pot, g.ranked(g.players.len())).contains(w),
        0 <= i < g.players.len(),
        g.players[i].live(),
        pot.1.contains(i),
    ensures
        g.show_of(w).rank.score() >= g.show_of(i).rank.score(),
{
    let n = g.players.len();
    let shows = g.ranked(n);
    let c = contenders(shows, pot.1);
    ranked_facts(g, n);
    contenders_sorted(shows, pot.1);
    let k = scored_by(c, c[0].rank.score(), w);
    assert(shows.contains(c[k]));
    assert(c[k] == g.show_of(w));
    assert(shows.contains(g.show_of(i)));
    assert(c.contains(g.show_of(i)));
    let l = choose|l: int| 0 <= l < c.len() && c[l] == g.show_of(i);
    if l > 0 {
        assert(c[0].rank.score() >= c[l].rank.score());
    }
}

proof fn scored_by(shows: Seq<ShowdownView>, score: int, w: int) -> (k: int)
    requires
        scoring(shows, score).contains(w),
    ensures
        0 <= k < shows.len(),
        shows[k].player_idx == w,
        shows[k].rank.score() == score,
    decreases shows.len(),
{
    let s = scoring(shows, score);
    let j = choose|j: int| 0 <= j < s.len() && s[j] == w;
    let last = shows.len() - 1;
    if shows.last().rank.score() == score && shows.last().player_idx == w {
        last
    } else {
        let rest = shows.drop_last();
        assert(scoring(rest, score)[j] == w);
        scored_by(rest, score, w)
    }
}

proof fn contenders_sorted(shows: Seq<ShowdownView>, seats: Seq<int>)
    requires
        forall|i: int, j: int| 0 <= i < j < shows.len() ==> (#[trigger] shows[i]).rank.score() >= (#[trigger] shows[j]).rank.score(),
    ensures
        forall|k: int| 0 <= k < contenders(shows, seats).len() ==> shows.contains(#[trigger] contenders(shows, seats)[k]),
        forall|x: ShowdownView| shows.contains(x) && seats.contains(x.player_idx) ==> #[trigger] contenders(shows, seats).contains(x),
        forall|i: int, j: int| 0 <= i < j < contenders(shows, seats).len() ==> (#[trigger] contenders(shows, seats)[i]).rank.score()
            >= (#[trigger] contenders(shows, seats)[j]).rank.score(),
    decreases shows.len(),
{
    if shows.len() > 0 {
        let rest = shows.drop_last();
        assert forall|i: int, j: int| 0 <= i < j < rest.len() implies (#[trigger] rest[i]).rank.score() >= (
        #[trigger] rest[j]).rank.score() by {
            assert(shows[i].rank.score() >= shows[j].rank.score());
        }
        contenders_sorted(rest, seats);
        let c = contenders(shows, seats);
        let d = contenders(rest, seats);
        assert(shows[shows.len() - 1] == shows.last());
        assert forall|k: int| 0 <= k < c.len() implies shows.contains(#[trigger] c[k]) by {
            if k < d.len() {
                assert(c[k] == d[k]);
                assert(rest.contains(d[k]));
                let l = choose|l: int| 0 <= l < rest.len() && rest[l] == d[k];
                assert(shows[l] == c[k]);
            }
        }
        assert forall|x: ShowdownView| shows.contains(x) && seats.contains(x.player_idx) implies #[trigger] c.contains(x) by {
            let l = choose|l: int| 0 <= l < shows.len() && shows[l] == x;
            if l < rest.len() {
                assert(rest[l] == x);
                assert(rest.contains(x));
                assert(d.contains(x));
                let k = choose|k: int| 0 <= k < d.len() && d[k] == x;
                assert(c[k] == x);
            } else {
                assert(c[c.len() - 1] == x);
            }
        }
        assert forall|i: int, j: int| 0 <= i < j < c.len() implies (#[trigger] c[i]).rank.score() >= (#[trigger] c[j]).rank.score() by {
            if j < d.len() {
                assert(d[i].rank.score() >= d[j].rank.score());
            } else {
                assert(c[i] == d[i]);
                assert(rest.contains(d[i]));
                let l = choose|l: int| 0 <= l < rest.len() && rest[l] == d[i];
                assert(shows[l].rank.score() >= shows[shows.len() - 1].rank.score());
            }
        }
    }
}

/// No two players have the same id.
pub open spec fn ids_differ(players: Seq<PlayerView>) -> bool {
    forall|i: int, j: int| 0 <= i < j < players.len() ==> (#[trigger] players[i]).open_id != (#[trigger] players[j]).open_id
}

/// An AI player is let in and refused as a person with the same id is. The two
/// tables that come of it differ in the last seat alone, which says that it is
/// an AI player's and which persona it has; either way the ids still differ and
/// no more sit at the table than it seats.
pub proof fn an_ai_sits_down_like_a_person(g: GameView, open_id: Seq<char>, name: Seq<char>, persona: Persona)
    requires
        ids_differ(g.players),
        g.players.len() <= MAX_PLAYERS,
        g.join_error(open_id) is None,
    ensures
        ({
            let person = g.joined(open_id, name, false, None);
            let ai = g.joined(open_id, name, true, Some(persona));
            let last = g.players.len() as int;
            &&& person.players.len() == ai.players.len() == last + 1 <= MAX_PLAYERS
            &&& person.players.take(last) == g.players
            &&& person == GameView { players: person.players, ..g }
            &&& ai == GameView { players: person.players.update(last, ai.players[last]), ..person }
            &&& ai.players[last] == PlayerView { is_ai: true, persona: Some(persona), ..person.players[last] }
            &&& !person.players[last].is_ai && person.players[last].persona is None
            &&& ids_differ(person.players)
            &&& ids_differ(ai.players)
        }),
{
    let person = g.joined(open_id, name, false, None);
    let ai = g.joined(open_id, name, true, Some(persona));
    let last = g.players.len() as int;
    assert(person.players.take(last) =~= g.players);
    assert(ai.players =~= person.players.update(last, ai.players[last]));
    assert forall|i: int, j: int| 0 <= i < j < person.players.len() implies (#[trigger] person.players[i]).open_id != (
    #[trigger] person.players[j]).open_id && ai.players[i].open_id == person.players[i].open_id && ai.players[j].open_id
        == person.players[j].open_id by {
        assert(person.players[i] == g.players[i]);
        assert(ai.players[i] == g.players[i]);
        if j < last {
            assert(person.players[j] == g.players[j]);
            assert(ai.players[j] == g.players[j]);
        }
    }
    assert forall|i: int, j: int| 0 <= i < j < ai.players.len() implies (#[trigger] ai.players[i]).open_id != (
    #[trigger] ai.players[j]).open_id by {
        assert(person.players[i].open_id != person.players[j].open_id);
    }
}

proof fn nobody_is_left_out(players: Seq<PlayerView>, open_id: Seq<char>)
    requires
        forall|i: int| 0 <= i < players.len() ==> (#[trigger] players[i]).open_id != open_id,
    ensures
        without_id(players, open_id) == players,
    decreases players.len(),
{
    if players.len() > 0 {
        let rest = players.drop_last();
        assert forall|i: int| 0 <= i < rest.len() implies (#[trigger] rest[i]).open_id != open_id by {
            assert(rest[i] == players[i]);
        }
        nobody_is_left_out(rest, open_id);
        assert(players.last() == players[players.len() - 1]);
    }
    assert(without_id(players, open_id) =~= players);
}

proof fn one_is_left_out(players: Seq<PlayerView>, open_id: Seq<char>, seat: int)
    requires
        ids_differ(players),
        0 <= seat < players.len(),
        players[seat].open_id == open_id,
    ensures
        without_id(players, open_id) == players.remove(seat),
    decreases players.len(),
{
    let rest = players.drop_last();
    let last = players.len() - 1;
    if seat == last {
        assert forall|i: int| 0 <= i < rest.len() implies (#[trigger] rest[i]).open_id != open_id by {
            assert(players[i].open_id != players[last].open_id);
        }
        nobody_is_left_out(rest, open_id);
        assert(players.remove(seat) =~= rest);
    } else {
        assert forall|i: int, j: int| 0 <= i < j < rest.len() implies (#[trigger] rest[i]).open_id != (
        #[trigger] rest[j]).open_id by {
            assert(players[i].open_id != players[j].open_id);
        }
        one_is_left_out(rest, open_id, seat);
        assert(players[seat].open_id != players[last].open_id);
        assert(players.remove(seat) =~= rest.remove(seat).push(players.last()));
    }
}

/// Whoever leaves takes their own seat along and no other: the others keep
/// their order, their chips and everything else.
pub proof fn leaving_takes_one_seat(g: GameView, open_id: Seq<char>)
    requires
        ids_differ(g.players),
        g.leave_error(open_id) is None,
    ensures
        seat_of(g.players, open_id, 0) matches Some(seat) && 0 <= seat < g.players.len() && g.players[seat].open_id
            == open_id && g.left(open_id) == (GameView { players: g.players.remove(seat), ..g }),
{
    super::table::seat_of_facts(g.players, open_id, 0);
    one_is_left_out(g.players, open_id, seat_of(g.players, open_id, 0)->0);
}

/// Sitting down and leaving again changes nothing.
pub proof fn leaving_undoes_joining(g: GameView, open_id: Seq<char>, name: Seq<char>, is_ai: bool, persona: Option<Persona>)
    requires
        g.join_error(open_id) is None,
    ensures
        g.joined(open_id, name, is_ai, persona).leave_error(open_id) is None,
        g.joined(open_id, name, is_ai, persona).left(open_id) == g,
{
    let h = g.joined(open_id, name, is_ai, persona);
    assert(h.players[g.players.len() as int].open_id == open_id);
    assert(h.players.drop_last() =~= g.players);
    nobody_is_left_out(g.players, open_id);
    assert(without_id(h.players, open_id) == g.players);
}

/// When an action ends the hand, the payouts come to the whole pot, the bets are
/// gone and all the money is in the players' stacks; until then no payouts are
/// told of.
pub proof fn the_whole_pot_is_paid_out(g: GameView, open_id: Seq<char>, action: PlayerAction)
    requires
        g.wf(),
        g.act_result(open_id, action) is Ok,
    ensures
        ({
            let (h, o) = g.act_result(open_id, action)->Ok_0;
            let pot = bets(g.applied(g.current_idx, action)->Ok_0.0.players);
            &&& h.stage is Ended <==> o.summary is Some
            &&& o.summary matches Some(s) ==> {
                &&& paid_out(s.payouts) == pot
                &&& stacks(h.players) == money(g.players)
                &&& forall|i: int| 0 <= i < h.players.len() ==> (#[trigger] h.players[i]).total_bet == 0
                    && h.players[i].bet_in_round == 0
            }
        }),
{
    act_facts(g, open_id, action);
    let (h, o) = g.act_result(open_id, action)->Ok_0;
    if h.stage is Ended {
        no_bets(h.players);
        money_is_stacks_and_bets(h.players);
    }
}

proof fn no_bets(players: Seq<PlayerView>)
    requires
        forall|i: int| 0 <= i < players.len() ==> (#[trigger] players[i]).total_bet == 0,
    ensures
        bets(players) == 0,
    decreases players.len(),
{
    if players.len() > 0 {
        let rest = players.drop_last();
        assert forall|i: int| 0 <= i < rest.len() implies (#[trigger] rest[i]).total_bet == 0 by {
            assert(rest[i] == players[i]);
        }
        no_bets(rest);
        assert(players[players.len() - 1].total_bet == 0);
    }
}

/// The table after a row of requests to act; those that are refused change
/// nothing.
pub open spec fn played(g: GameView, requests: Seq<(Seq<char>, PlayerAction)>) -> GameView
    decreases requests.len(),
{
    if requests.len() == 0 {
        g
    } else {
        let before = played(g, requests.drop_last());
        match before.act_result(requests.last().0, requests.last().1) {
            Ok((h, o)) => h,
            Err(e) => before,
        }
    }
}

proof fn playing_keeps_the_money(g: GameView, requests: Seq<(Seq<char>, PlayerAction)>)
    requires
        g.wf(),
    ensures
        played(g, requests).wf(),
        money(played(g, requests).players) == money(g.players),
    decreases requests.len(),
{
    if requests.len() > 0 {
        playing_keeps_the_money(g, requests.drop_last());
        act_facts(played(g, requests.drop_last()), requests.last().0, requests.last().1);
    }
}

/// From its start to its end a hand keeps the money: whatever is asked for
/// during it, chips and bets together are what the chips were before it, and
/// once it is over they are all chips again.
pub proof fn a_hand_keeps_the_money(g: GameView, mode: DeckMode, deck: Seq<Card>, requests: Seq<(Seq<char>, PlayerAction)>)
    requires
        g.wf(),
        g.start_error() is None,
        deck.to_multiset() == ordered_deck(mode).to_multiset(),
    ensures
        ({
            let h = played(g.started(mode, deck), requests);
            &&& h.wf()
            &&& money(h.players) == stacks(g.players)
            &&& h.stage is Ended ==> stacks(h.players) == stacks(g.players) && forall|i: int|
                0 <= i < h.players.len() ==> (#[trigger] h.players[i]).total_bet == 0 && h.players[i].bet_in_round == 0
        }),
{
    started_facts(g, mode, deck);
    playing_keeps_the_money(g.started(mode, deck), requests);
    let h = played(g.started(mode, deck), requests);
    no_bets(g.players);
    money_is_stacks_and_bets(g.players);
    money_is_stacks_and_bets(h.players);
    if h.stage is Ended {
        no_bets(h.players);
    }
}

} // verus!
