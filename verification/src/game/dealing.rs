//! What a deal is: where the button goes, who posts what, and which cards go
//! where.

use vstd::prelude::*;
use crate::poker::card::ordered_deck;
use crate::poker::{Card, DeckMode};
use super::deal::{
    all_fresh, another_live, deal_round, fresh, given, hand_dealt_facts, live_seats_facts, next_active,
    next_active_facts, seek, seek_facts, seek_finds, wants_live,
};
use super::table::live_seats;
use super::view::{GameView, PlayerView};
use super::{GameError, Stage};

verus! {

/// Who can be dealt in: a player with chips.
pub open spec fn has_chips() -> spec_fn(PlayerView) -> bool {
    |p: PlayerView| p.chips > 0
}

/// Whether `to` is the first seat behind `from` of which `ok` holds, going round
/// the table and no further than `from` itself.
#[verifier::opaque]
pub open spec fn is_next(players: Seq<PlayerView>, ok: spec_fn(PlayerView) -> bool, from: int, to: int) -> bool {
    exists|m: int|
        {
            &&& 1 <= m <= players.len()
            &&& to == #[trigger] ((from + m) % (players.len() as int))
            &&& ok(players[to])
            &&& forall|l: int| 1 <= l < m ==> !ok(players[#[trigger] ((from + l) % (players.len() as int))])
        }
}

/// What a search finds is the next one.
pub proof fn found_is_next(
    searched: Seq<PlayerView>,
    want: spec_fn(PlayerView) -> bool,
    players: Seq<PlayerView>,
    ok: spec_fn(PlayerView) -> bool,
    from: int,
)
    requires
        players.len() == searched.len() > 0,
        0 <= from,
        forall|i: int| 0 <= i < players.len() ==> (want(#[trigger] searched[i]) <==> ok(players[i])),
    ensures
        match seek(searched, want, from, 1) {
            Some(to) => 0 <= to < players.len() && is_next(players, ok, from, to),
            None => forall|i: int| 0 <= i < players.len() ==> !ok(#[trigger] players[i]),
        },
{
    reveal(is_next);
    let n = players.len() as int;
    seek_facts(searched, want, from, 1);
    match seek(searched, want, from, 1) {
        Some(to) => {
            let m = choose|m: int|
                {
                    &&& 1 <= m <= n
                    &&& to == #[trigger] ((from + m) % n)
                    &&& forall|l: int| 1 <= l < m ==> !want(searched[#[trigger] ((from + l) % n)])
                };
            assert(want(searched[to]));
            assert forall|l: int| 1 <= l < m implies !ok(players[#[trigger] ((from + l) % n)]) by {
                assert(!want(searched[(from + l) % n]));
            }
            assert(to == (from + m) % n);
        },
        None => {
            assert forall|i: int| 0 <= i < n implies !ok(#[trigger] players[i]) by {
                if ok(players[i]) {
                    assert(want(searched[i]));
                    seek_finds(searched, want, from, i);
                }
            }
        },
    }
}

/// A hand starts between hands, with two players who have chips, and not
/// otherwise.
pub proof fn who_can_start(g: GameView)
    requires
        g.wf(),
    ensures
        g.start_error() == (if g.stage != Stage::Lobby && g.stage != Stage::Ended {
            Some(GameError::HandInProgress(g.stage))
        } else if exists|i: int, j: int|
            0 <= i < j < g.players.len() && (#[trigger] g.players[i]).chips > 0 && (#[trigger] g.players[j]).chips > 0 {
            None
        } else {
            Some(GameError::TooFewPlayers)
        }),
{
    let seats = all_fresh(g.players);
    let live = live_seats(seats);
    live_seats_facts(seats);
    assert forall|i: int| 0 <= i < seats.len() implies (#[trigger] seats[i]).live() == (g.players[i].chips > 0) by {
        assert(seats[i] == fresh(g.players[i]));
        assert(g.players[i].chips >= 0);
    }
    if live.len() >= 2 {
        assert(live[0] < live[1]);
        assert(seats[live[0]].live() && seats[live[1]].live());
        assert(g.players[live[0]].chips > 0 && g.players[live[1]].chips > 0);
    }
    if exists|i: int, j: int|
        0 <= i < j < g.players.len() && (#[trigger] g.players[i]).chips > 0 && (#[trigger] g.players[j]).chips > 0 {
        let (i, j) = choose|i: int, j: int|
            0 <= i < j < g.players.len() && (#[trigger] g.players[i]).chips > 0 && (#[trigger] g.players[j]).chips > 0;
        assert(seats[i].live() && seats[j].live());
        assert(live.contains(i) && live.contains(j));
        let a = choose|a: int| 0 <= a < live.len() && live[a] == i;
        let b = choose|b: int| 0 <= b < live.len() && live[b] == j;
        assert(a != b);
    }
}

/// The button goes to the first player with chips, and from hand to hand to the
/// next one behind the last dealer: whoever is passed over has no chips, and the
/// same player is not the dealer twice running.
pub proof fn the_button_moves_on(g: GameView, mode: DeckMode, deck: Seq<Card>)
    requires
        g.wf(),
        g.start_error() is None,
        deck.to_multiset() == ordered_deck(mode).to_multiset(),
    ensures
        ({
            let dealer = g.started(mode, deck).dealer_idx;
            &&& 0 <= dealer < g.players.len()
            &&& g.players[dealer].chips > 0
            &&& g.hand_count == 0 ==> forall|i: int| 0 <= i < dealer ==> (#[trigger] g.players[i]).chips == 0
            &&& g.hand_count != 0 ==> is_next(g.players, has_chips(), g.dealer_idx, dealer)
            &&& g.hand_count != 0 ==> dealer != g.dealer_idx
        }),
{
    let seats = all_fresh(g.players);
    let live = live_seats(seats);
    live_seats_facts(seats);
    hand_dealt_facts(g, mode, deck);
    assert forall|i: int| 0 <= i < seats.len() implies (wants_live()(#[trigger] seats[i]) <==> has_chips()(g.players[i])) by {
        assert(seats[i] == fresh(g.players[i]));
        assert(g.players[i].chips >= 0);
    }
    if g.hand_count == 0 {
        let dealer = live[0];
        assert(wants_live()(seats[dealer]));
        assert forall|i: int| 0 <= i < dealer implies (#[trigger] g.players[i]).chips == 0 by {
            if g.players[i].chips > 0 {
                assert(wants_live()(seats[i]));
                let k = choose|k: int| 0 <= k < live.len() && live[k] == i;
                assert(live[0] <= live[k]);
            }
            assert(g.players[i].chips >= 0);
        }
    } else {
        next_with_chips(g.players, seats, g.dealer_idx);
    }
}

/// Whether exactly two players have chips.
pub open spec fn heads_up(players: Seq<PlayerView>) -> bool {
    exists|i: int, j: int|
        {
            &&& 0 <= i < j < players.len()
            &&& (#[trigger] players[i]).chips > 0
            &&& (#[trigger] players[j]).chips > 0
            &&& forall|k: int| 0 <= k < players.len() && (#[trigger] players[k]).chips > 0 ==> k == i || k == j
        }
}

/// What a seat posts: a blind, or all chips where they are fewer.
pub open spec fn posts(g: GameView, i: int, small: int, big: int) -> int {
    let blind = if i == small {
        g.small_blind
    } else if i == big {
        g.big_blind
    } else {
        0
    };
    if blind <= g.players[i].chips { blind } else { g.players[i].chips }
}

/// Whether these are the seats of the blinds, and `first` acts first: two players
/// alone, the dealer posts the small blind and acts first; else the blinds are
/// the next two behind the dealer, and whoever sits behind them acts first.
pub open spec fn blinds_at(g: GameView, dealer: int, small: int, big: int, first: int) -> bool {
    &&& 0 <= small < g.players.len()
    &&& 0 <= big < g.players.len()
    &&& small != big
    &&& is_next(g.players, has_chips(), small, big)
    &&& heads_up(g.players) ==> small == dealer && first == dealer
    &&& !heads_up(g.players) ==> is_next(g.players, has_chips(), dealer, small) && is_next(g.players, has_chips(), big, first)
}

/// Whether a player starts the hand having put in `blind`: without chips they
/// sit out.
pub open spec fn starts_with(p: PlayerView, before: PlayerView, blind: int) -> bool {
    &&& p.chips == before.chips - blind
    &&& p.total_bet == blind
    &&& p.bet_in_round == blind
    &&& p.all_in == (blind > 0 && p.chips == 0)
    &&& p.sat_out == (before.chips == 0)
    &&& !p.folded
    &&& !p.acted_this_round
    &&& p.open_id == before.open_id
    &&& p.name == before.name
    &&& p.is_ai == before.is_ai
    &&& p.persona == before.persona
}

/// Whether everybody does.
pub open spec fn all_start_with(s: GameView, g: GameView, small: int, big: int) -> bool {
    forall|i: int| 0 <= i < g.players.len() ==> starts_with(#[trigger] s.players[i], g.players[i], posts(g, i, small, big))
}

/// Where the blinds are.
proof fn blind_seats(g: GameView, mode: DeckMode, deck: Seq<Card>)
    requires
        g.wf(),
        g.start_error() is None,
        deck.to_multiset() == ordered_deck(mode).to_multiset(),
    ensures
        ({
            let d = g.hand_dealt(mode, deck);
            &&& d.players.len() == g.players.len()
            &&& g.players[d.small_blind_seat()].chips > 0
            &&& g.players[d.big_blind_seat()].chips > 0
            &&& blinds_at(g, d.dealer_idx, d.small_blind_seat(), d.big_blind_seat(), d.first_seat())
        }),
{
    let d = g.hand_dealt(mode, deck);
    let n = g.players.len() as int;
    let live = live_seats(d.players);
    hand_dealt_facts(g, mode, deck);
    live_seats_facts(d.players);
    assert forall|i: int| 0 <= i < n implies (wants_live()(#[trigger] d.players[i]) <==> has_chips()(g.players[i])) by {
        assert(d.players[i] == PlayerView { hole: d.players[i].hole, ..fresh(g.players[i]) });
        assert(g.players[i].chips >= 0);
    }
    two_or_more(g.players, d.players);
    let small = d.small_blind_seat();
    let big = d.big_blind_seat();
    next_with_chips(g.players, d.players, d.dealer_idx);
    next_with_chips(g.players, d.players, small);
    next_with_chips(g.players, d.players, big);
}

/// The next player in the hand is the next one with chips.
proof fn next_with_chips(g: Seq<PlayerView>, players: Seq<PlayerView>, from: int)
    requires
        g.len() == players.len(),
        0 <= from,
        live_seats(players).len() >= 2,
        forall|i: int| 0 <= i < g.len() ==> (wants_live()(#[trigger] players[i]) <==> has_chips()(g[i])),
    ensures
        ({
            let to = next_active(players, from);
            &&& 0 <= to < g.len()
            &&& to != from
            &&& g[to].chips > 0
            &&& is_next(g, has_chips(), from, to)
        }),
{
    let other = another_live(players, from);
    next_active_facts(players, from, other);
    seek_finds(players, wants_live(), from, other);
    found_is_next(players, wants_live(), g, has_chips(), from);
    let to = next_active(players, from);
    assert(wants_live()(players[to]));
}

proof fn two_or_more(g: Seq<PlayerView>, players: Seq<PlayerView>)
    requires
        g.len() == players.len(),
        live_seats(players).len() >= 2,
        forall|i: int| 0 <= i < g.len() ==> (wants_live()(#[trigger] players[i]) <==> g[i].chips > 0),
    ensures
        heads_up(g) == (live_seats(players).len() == 2),
{
    let live = live_seats(players);
    live_seats_facts(players);
    assert(live[0] < live[1]);
    assert(wants_live()(players[live[0]]) && wants_live()(players[live[1]]));
    if live.len() == 2 {
        assert(g[live[0]].chips > 0 && g[live[1]].chips > 0);
        assert forall|k: int| 0 <= k < g.len() && (#[trigger] g[k]).chips > 0 implies k == live[0] || k == live[1] by {
            assert(wants_live()(players[k]));
            let a = choose|a: int| 0 <= a < live.len() && live[a] == k;
        }
    } else {
        assert(live[1] < live[2]);
        assert(wants_live()(players[live[2]]));
        assert(g[live[0]].chips > 0 && g[live[1]].chips > 0 && g[live[2]].chips > 0);
    }
}

/// Who posts the blinds, what they cost, and who is first: the two seats behind
/// the button pay, everybody else pays nothing, and the bet to meet is the big
/// blind.
pub proof fn the_blinds_are_posted(g: GameView, mode: DeckMode, deck: Seq<Card>)
    requires
        g.wf(),
        g.start_error() is None,
        deck.to_multiset() == ordered_deck(mode).to_multiset(),
    ensures
        ({
            let s = g.started(mode, deck);
            &&& s.players.len() == g.players.len()
            &&& exists|small: int, big: int| #[trigger]
                blinds_at(g, s.dealer_idx, small, big, s.current_idx) && all_start_with(s, g, small, big)
            &&& s.current_bet == g.big_blind
            &&& s.min_raise == g.big_blind
            &&& s.small_blind == g.small_blind
            &&& s.big_blind == g.big_blind
        }),
{
    let d = g.hand_dealt(mode, deck);
    let s = g.started(mode, deck);
    hand_dealt_facts(g, mode, deck);
    blind_seats(g, mode, deck);
    blinds_paid(g, d, d.small_blind_seat(), d.big_blind_seat());
    assert(blinds_at(g, s.dealer_idx, d.small_blind_seat(), d.big_blind_seat(), s.current_idx));
}

/// What two payments do.
proof fn blinds_paid(g: GameView, d: GameView, small: int, big: int)
    requires
        d.players.len() == g.players.len(),
        0 <= small < g.players.len(),
        0 <= big < g.players.len(),
        small != big,
        g.players[small].chips > 0,
        g.players[big].chips > 0,
        g.small_blind == d.small_blind,
        g.big_blind == d.big_blind,
        forall|i: int| 0 <= i < g.players.len() ==> (#[trigger] g.players[i]).chips >= 0,
        forall|i: int| 0 <= i < g.players.len() ==> #[trigger] d.players[i] == (PlayerView { hole: d.players[i].hole, ..fresh(g.players[i]) }),
    ensures
        d.paid(small, d.small_blind).paid(big, d.big_blind).players.len() == g.players.len(),
        all_start_with(d.paid(small, d.small_blind).paid(big, d.big_blind), g, small, big),
        forall|i: int| 0 <= i < g.players.len() ==> (#[trigger] d.paid(small, d.small_blind).paid(big, d.big_blind).players[i]).hole
            == d.players[i].hole,
{
    let s = d.paid(small, d.small_blind).paid(big, d.big_blind);
    assert forall|i: int| 0 <= i < g.players.len() implies starts_with(#[trigger] s.players[i], g.players[i], posts(g, i, small, big)) by {
        assert(d.players[i] == PlayerView { hole: d.players[i].hole, ..fresh(g.players[i]) });
        assert(g.players[i].chips >= 0);
    }
}

// ---- the cards ----

/// How many of the first `i` players have chips.
pub open spec fn players_in(players: Seq<PlayerView>, i: int) -> int
    decreases i,
{
    if i <= 0 {
        0
    } else {
        players_in(players, i - 1) + if players[i - 1].chips > 0 { 1int } else { 0int }
    }
}

proof fn players_in_facts(players: Seq<PlayerView>, i: int)
    requires
        0 <= i,
    ensures
        0 <= players_in(players, i) <= i,
    decreases i,
{
    if i > 0 {
        players_in_facts(players, i - 1);
    }
}

/// One card each, the top card to the first.
proof fn round_dealt(g: Seq<PlayerView>, players: Seq<PlayerView>, deck: Seq<Card>, n: nat)
    requires
        n <= players.len() == g.len(),
        n <= deck.len(),
        forall|i: int| 0 <= i < players.len() ==> (#[trigger] players[i]).sat_out == (g[i].chips == 0) && g[i].chips >= 0,
    ensures
        ({
            let (ps, d) = deal_round(players, deck, n);
            &&& ps.len() == players.len()
            &&& d == deck.take(deck.len() - players_in(g, n as int))
            &&& forall|i: int| 0 <= i < ps.len() ==> (#[trigger] ps[i]).sat_out == players[i].sat_out
            &&& forall|i: int| 0 <= i < ps.len() ==> (#[trigger] ps[i]).hole == if i < n && g[i].chips > 0 {
                players[i].hole.push(deck[deck.len() - 1 - players_in(g, i)])
            } else {
                players[i].hole
            }
        }),
    decreases n,
{
    if n == 0 {
        assert(deck.take(deck.len() as int) =~= deck);
    } else {
        let m = (n - 1) as nat;
        round_dealt(g, players, deck, m);
        players_in_facts(g, m as int);
        let (ps, d) = deal_round(players, deck, m);
        assert(ps[n - 1].sat_out == players[n - 1].sat_out);
        if !ps[n - 1].sat_out {
            assert(d.len() > 0);
            assert(d.last() == deck[deck.len() - 1 - players_in(g, n - 1)]);
            assert(d.drop_last() =~= deck.take(deck.len() - players_in(g, n as int)));
            let qs = ps.update(n - 1, given(ps[n - 1], d.last()));
            assert(deal_round(players, deck, n).0 == qs);
        }
    }
}

/// Whether `players` were dealt two cards each from the top of the deck, in turn,
/// those of them who have chips.
pub open spec fn dealt_in_turn(players: Seq<PlayerView>, g: Seq<PlayerView>, deck: Seq<Card>) -> bool {
    let k = players_in(g, g.len() as int);
    &&& players.len() == g.len()
    &&& forall|i: int| 0 <= i < g.len() && g[i].chips > 0 ==> (#[trigger] players[i]).hole == seq![
        deck[deck.len() - 1 - players_in(g, i)],
        deck[deck.len() - 1 - k - players_in(g, i)],
    ]
    &&& forall|i: int| 0 <= i < g.len() && g[i].chips == 0 ==> (#[trigger] players[i]).hole.len() == 0
}

proof fn two_rounds(g: Seq<PlayerView>, deck: Seq<Card>)
    requires
        2 * g.len() <= deck.len(),
        forall|i: int| 0 <= i < g.len() ==> (#[trigger] g[i]).chips >= 0,
    ensures
        ({
            let once = deal_round(all_fresh(g), deck, g.len());
            let twice = deal_round(once.0, once.1, g.len());
            &&& players_in(g, g.len() as int) <= g.len()
            &&& dealt_in_turn(twice.0, g, deck)
            &&& twice.1 == deck.take(deck.len() - 2 * players_in(g, g.len() as int))
        }),
{
    let seats = all_fresh(g);
    let n = g.len();
    let k = players_in(g, n as int);
    players_in_facts(g, n as int);
    assert forall|i: int| 0 <= i < n implies (#[trigger] seats[i]).sat_out == (g[i].chips == 0) && g[i].chips >= 0 by {
        assert(seats[i] == fresh(g[i]));
    }
    round_dealt(g, seats, deck, n);
    let once = deal_round(seats, deck, n);
    assert forall|i: int| 0 <= i < n implies (#[trigger] once.0[i]).sat_out == (g[i].chips == 0) && g[i].chips >= 0 by {
        assert(once.0[i].sat_out == seats[i].sat_out);
    }
    round_dealt(g, once.0, once.1, n);
    let twice = deal_round(once.0, once.1, n);
    assert(twice.1 =~= deck.take(deck.len() - 2 * k));
    assert forall|i: int| 0 <= i < n && g[i].chips > 0 implies (#[trigger] twice.0[i]).hole == seq![
        deck[deck.len() - 1 - players_in(g, i)],
        deck[deck.len() - 1 - k - players_in(g, i)],
    ] by {
        players_in_facts(g, i);
        later_players(g, i, n as int);
        assert(once.0[i].hole == seats[i].hole.push(deck[deck.len() - 1 - players_in(g, i)]));
        assert(once.1[once.1.len() - 1 - players_in(g, i)] == deck[deck.len() - 1 - k - players_in(g, i)]);
        assert(twice.0[i].hole =~= seq![
            deck[deck.len() - 1 - players_in(g, i)],
            deck[deck.len() - 1 - k - players_in(g, i)],
        ]);
    }
    assert forall|i: int| 0 <= i < n && g[i].chips == 0 implies (#[trigger] twice.0[i]).hole.len() == 0 by {
        assert(once.0[i].hole == seats[i].hole);
    }
}

proof fn enough_cards(mode: DeckMode, deck: Seq<Card>)
    requires
        deck.to_multiset() == ordered_deck(mode).to_multiset(),
    ensures
        deck.len() >= 36,
{
    broadcast use vstd::seq_lib::group_to_multiset_ensures;

    crate::poker::card::ordered_deck_is_the_deck(mode);
    assert(deck.len() == ordered_deck(mode).to_multiset().len());
}

/// The cards are dealt from the top of the deck, one each in seat order and then
/// another: everybody with chips has two, nobody else has any, and the rest stays
/// in the deck as it lay.
pub proof fn the_cards_are_dealt_in_turn(g: GameView, mode: DeckMode, deck: Seq<Card>)
    requires
        g.wf(),
        g.start_error() is None,
        deck.to_multiset() == ordered_deck(mode).to_multiset(),
    ensures
        ({
            let s = g.started(mode, deck);
            let k = players_in(g.players, g.players.len() as int);
            &&& dealt_in_turn(s.players, g.players, deck)
            &&& 2 * k <= deck.len()
            &&& s.deck == deck.take(deck.len() - 2 * k)
            &&& s.community.len() == 0
            &&& s.mode == mode
        }),
{
    let s = g.started(mode, deck);
    let d = g.hand_dealt(mode, deck);
    enough_cards(mode, deck);
    two_rounds(g.players, deck);
    blinds_move_no_card(g, mode, deck);
    assert(dealt_in_turn(s.players, g.players, deck)) by {
        assert(dealt_in_turn(d.players, g.players, deck));
    }
}

proof fn blinds_move_no_card(g: GameView, mode: DeckMode, deck: Seq<Card>)
    requires
        g.wf(),
        g.start_error() is None,
        deck.to_multiset() == ordered_deck(mode).to_multiset(),
    ensures
        g.started(mode, deck).players.len() == g.players.len(),
        forall|i: int| 0 <= i < g.players.len() ==> (#[trigger] g.started(mode, deck).players[i]).hole == g.hand_dealt(mode, deck).players[i].hole,
{
    let d = g.hand_dealt(mode, deck);
    hand_dealt_facts(g, mode, deck);
    blind_seats(g, mode, deck);
    blinds_paid(g, d, d.small_blind_seat(), d.big_blind_seat());
}

proof fn later_players(players: Seq<PlayerView>, i: int, n: int)
    requires
        0 <= i <= n,
    ensures
        players_in(players, i) <= players_in(players, n),
        i < n && players[i].chips > 0 ==> players_in(players, i) < players_in(players, n),
    decreases n - i,
{
    if i < n {
        later_players(players, i + 1, n);
        assert(players_in(players, i + 1) == players_in(players, i) + if players[i].chips > 0 { 1int } else { 0int });
    }
}

/// What else a start changes: the hand is counted, the log is empty, and the
/// betting before the flop is on. The rest of the table stays.
pub proof fn a_start_changes_nothing_else(g: GameView, mode: DeckMode, deck: Seq<Card>)
    ensures
        ({
            let s = g.started(mode, deck);
            &&& s.hand_count == g.hand_count + 1
            &&& s.action_log.len() == 0
            &&& s.stage == Stage::PreFlop
            &&& s.chat_id == g.chat_id
            &&& s.lobby_msg_id == g.lobby_msg_id
            &&& s.last_action_msg_id == g.last_action_msg_id
        }),
{
}

} // verus!
