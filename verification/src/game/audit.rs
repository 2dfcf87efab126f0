//! Whether a table that comes from elsewhere is in order.

use vstd::prelude::*;
use vstd::multiset::Multiset;
use crate::poker::{Card, DeckMode};
use crate::text::same_text;
use super::table::{holes, live_seats, money};
use super::view::{GameView, PlayerView};
use super::{Game, Stage, MAX_PLAYERS};

verus! {

/// The hole cards of all players, one hand after the other.
pub open spec fn hole_list(players: Seq<PlayerView>) -> Seq<Card>
    decreases players.len(),
{
    if players.len() == 0 {
        Seq::empty()
    } else {
        hole_list(players.drop_last()) + players.last().hole
    }
}

proof fn hole_list_holds(players: Seq<PlayerView>)
    ensures
        hole_list(players).to_multiset() == holes(players),
    decreases players.len(),
{
    broadcast use vstd::seq_lib::group_to_multiset_ensures;

    if players.len() > 0 {
        hole_list_holds(players.drop_last());
        vstd::seq_lib::lemma_multiset_commutative(hole_list(players.drop_last()), players.last().hole);
    } else {
        assert(hole_list(players) =~= Seq::empty());
        assert(hole_list(players).to_multiset() =~= Multiset::empty());
    }
}

/// All cards that are in play.
pub open spec fn card_list(g: GameView) -> Seq<Card> {
    hole_list(g.players) + g.community + g.deck
}

proof fn card_list_holds(g: GameView)
    ensures
        card_list(g).to_multiset() == g.in_play(),
{
    hole_list_holds(g.players);
    vstd::seq_lib::lemma_multiset_commutative(hole_list(g.players), g.community);
    vstd::seq_lib::lemma_multiset_commutative(hole_list(g.players) + g.community, g.deck);
}

/// No card is in the list twice, and all of them are of the deck.
pub open spec fn proper(cards: Seq<Card>, mode: DeckMode) -> bool {
    &&& cards.no_duplicates()
    &&& forall|i: int| 0 <= i < cards.len() ==> mode.low() <= (#[trigger] cards[i]).rank.0 <= 14
}

proof fn proper_cards(g: GameView)
    ensures
        proper(card_list(g), g.mode) == g.cards_wf(),
{
    broadcast use vstd::seq_lib::group_to_multiset_ensures;

    let cards = card_list(g);
    card_list_holds(g);
    let all = cards.to_multiset();
    if proper(cards, g.mode) {
        cards.lemma_multiset_has_no_duplicates();
        assert forall|c: Card| #[trigger] g.in_play().count(c) <= 1 && (g.in_play().count(c) == 1 ==> g.mode.low()
            <= c.rank.0 <= 14) by {
            if all.count(c) > 0 {
                assert(all.contains(c));
                assert(cards.contains(c));
                let i = choose|i: int| 0 <= i < cards.len() && cards[i] == c;
                assert(g.mode.low() <= cards[i].rank.0 <= 14);
            }
        }
    }
    if g.cards_wf() {
        assert forall|c: Card| all.contains(c) implies #[trigger] all.count(c) == 1 by {
            assert(g.in_play().count(c) <= 1);
        }
        cards.lemma_multiset_has_no_duplicates_conv();
        assert forall|i: int| 0 <= i < cards.len() implies g.mode.low() <= (#[trigger] cards[i]).rank.0 <= 14 by {
            assert(cards.contains(cards[i]));
            assert(g.in_play().count(cards[i]) >= 1);
        }
    }
}

impl Game {
    fn list_cards(&self) -> (r: Vec<Card>)
        ensures
            r@ == card_list(self@),
    {
        let ghost all = self@.players;
        let mut out: Vec<Card> = Vec::new();
        let mut i: usize = 0;
        assert(all.take(0) =~= Seq::empty());
        while i < self.players.len()
            invariant
                all == self@.players,
                i <= self.players@.len() == all.len(),
                out@ == hole_list(all.take(i as int)),
            decreases self.players@.len() - i,
        {
            assert(all.take(i + 1).drop_last() =~= all.take(i as int));
            assert(all.take(i + 1).last() == self.players@[i as int]@);
            let ghost before = out@;
            out.extend_from_slice(self.players[i].hole.as_slice());
            assert(out@ =~= before + self.players@[i as int].hole@);
            i = i + 1;
        }
        assert(all.take(i as int) =~= all);
        let ghost held = out@;
        out.extend_from_slice(self.community.as_slice());
        assert(out@ =~= held + self.community@);
        out.extend_from_slice(self.deck.cards().as_slice());
        assert(out@ =~= card_list(self@));
        out
    }

    fn cards_are_proper(&self) -> (r: bool)
        ensures
            r == self@.cards_wf(),
    {
        let cards = self.list_cards();
        let low = self.mode.lowest_rank();
        proof {
            proper_cards(self@);
        }
        let mut i: usize = 0;
        while i < cards.len()
            invariant
                cards@ == card_list(self@),
                proper(cards@, self@.mode) == self@.cards_wf(),
                low == self@.mode.low(),
                i <= cards@.len(),
                forall|k: int| 0 <= k < i ==> low <= (#[trigger] cards@[k]).rank.0 <= 14,
                forall|k: int, l: int| 0 <= k < i && k < l < cards@.len() ==> cards@[k] != cards@[l],
            decreases cards@.len() - i,
        {
            let c = cards[i];
            if c.rank.0 < low || c.rank.0 > 14 {
                assert(!(low <= cards@[i as int].rank.0 <= 14));
                return false;
            }
            let mut j: usize = i + 1;
            while j < cards.len()
                invariant
                    cards@ == card_list(self@),
                    proper(cards@, self@.mode) == self@.cards_wf(),
                    i < j <= cards@.len(),
                    c == cards@[i as int],
                    forall|l: int| i < l < j ==> cards@[i as int] != cards@[l],
                decreases cards@.len() - j,
            {
                if cards[j] == c {
                    assert(cards@[i as int] == cards@[j as int]);
                    return false;
                }
                j = j + 1;
            }
            i = i + 1;
        }
        true
    }

    fn ids_are_distinct(&self) -> (r: bool)
        ensures
            r == (forall|i: int, j: int|
                0 <= i < j < self@.players.len() ==> (#[trigger] self@.players[i]).open_id != (#[trigger] self@.players[j]).open_id),
    {
        let mut i: usize = 0;
        while i < self.players.len()
            invariant
                i <= self.players@.len() == self@.players.len(),
                forall|k: int, l: int|
                    0 <= k < i && k < l < self@.players.len() ==> (#[trigger] self@.players[k]).open_id != (#[trigger] self@.players[l]).open_id,
            decreases self.players@.len() - i,
        {
            assert(self@.players[i as int] == self.players@[i as int]@);
            let mut j: usize = i + 1;
            while j < self.players.len()
                invariant
                    i < j <= self.players@.len() == self@.players.len(),
                    forall|l: int| i < l < j ==> self@.players[i as int].open_id != (#[trigger] self@.players[l]).open_id,
                decreases self.players@.len() - j,
            {
                assert(self@.players[i as int] == self.players@[i as int]@);
                assert(self@.players[j as int] == self.players@[j as int]@);
                if same_text(self.players[i].open_id.as_str(), self.players[j].open_id.as_str()) {
                    return false;
                }
                j = j + 1;
            }
            i = i + 1;
        }
        true
    }

    /// The money at the table.
    fn count_money(&self) -> (r: u128)
        requires
            self@.players.len() <= MAX_PLAYERS,
        ensures
            r == money(self@.players),
    {
        let ghost all = self@.players;
        let mut sum: u128 = 0;
        let mut i: usize = 0;
        assert(all.take(0) =~= Seq::empty());
        while i < self.players.len()
            invariant
                all == self@.players,
                i <= self.players@.len() == all.len() <= MAX_PLAYERS,
                sum == money(all.take(i as int)),
                sum <= i * 0x2_0000_0000_0000_0000,
            decreases self.players@.len() - i,
        {
            assert(all.take(i + 1).drop_last() =~= all.take(i as int));
            assert(all.take(i + 1).last() == self.players@[i as int]@);
            sum = sum + self.players[i].chips as u128 + self.players[i].total_bet as u128;
            i = i + 1;
        }
        assert(all.take(i as int) =~= all);
        sum
    }

    fn table_is_in_order(&self) -> (r: bool)
        ensures
            r == self@.table_wf(),
    {
        assert(self.players@.len() == self@.players.len());
        if self.players.len() > MAX_PLAYERS || self.dealer_idx >= MAX_PLAYERS || self.current_idx >= MAX_PLAYERS {
            return false;
        }
        if self.big_blind == 0 || self.min_raise == 0 || self.small_blind > self.big_blind {
            return false;
        }
        proof {
            assert forall|i: int| 0 <= i < self@.players.len() implies (#[trigger] self@.players[i]).chips >= 0
                && self@.players[i].total_bet >= 0 && self@.players[i].bet_in_round >= 0 by {
                assert(self@.players[i] == self.players@[i]@);
            }
        }
        if self.count_money() > u64::MAX as u128 {
            return false;
        }
        self.ids_are_distinct()
    }

    fn player_is_in_order(&self, i: usize) -> (r: bool)
        requires
            i < self@.players.len(),
        ensures
            r == self@.player_wf(self@.players[i as int]),
    {
        assert(self@.players[i as int] == self.players@[i as int]@);
        let p = &self.players[i];
        let live = !p.sat_out && !p.folded;
        let before_flop = match self.stage {
            Stage::PreFlop => true,
            _ => false,
        };
        if p.sat_out && p.total_bet != 0 {
            return false;
        }
        if live && !p.all_in && p.chips == 0 {
            return false;
        }
        if live && p.all_in && (p.chips != 0 || p.total_bet == 0) {
            return false;
        }
        if live && p.hole.len() != 2 {
            return false;
        }
        if live && !before_flop && p.total_bet == 0 {
            return false;
        }
        p.bet_in_round <= p.total_bet && p.bet_in_round <= self.current_bet
    }

    fn hand_is_in_order(&self) -> (r: bool)
        ensures
            r == self@.hand_wf(),
    {
        let n = self.players.len();
        assert(n == self@.players.len());
        if self.dealer_idx >= n || self.current_idx >= n {
            return false;
        }
        let (board, to_come): (usize, usize) = match self.stage {
            Stage::PreFlop => (0, 8),
            Stage::Flop => (3, 4),
            Stage::Turn => (4, 2),
            Stage::River => (5, 0),
            Stage::Showdown => (5, 0),
            _ => (0, 0),
        };
        let before_flop = match self.stage {
            Stage::PreFlop => true,
            _ => false,
        };
        if before_flop && self.current_bet < self.big_blind {
            return false;
        }
        if self.community.len() != board || self.deck.cards().len() < to_come {
            return false;
        }
        if !self.cards_are_proper() {
            return false;
        }
        let ghost all = self@.players;
        let mut live: usize = 0;
        let mut i: usize = 0;
        assert(all.take(0) =~= Seq::empty());
        while i < n
            invariant
                all == self@.players,
                n == all.len() == self.players@.len(),
                i <= n,
                live == live_seats(all.take(i as int)).len(),
                live <= i,
                forall|k: int| 0 <= k < i ==> self@.player_wf(#[trigger] all[k]),
            decreases n - i,
        {
            assert(all.take(i + 1).drop_last() =~= all.take(i as int));
            assert(all.take(i + 1).last() == self.players@[i as int]@);
            if !self.player_is_in_order(i) {
                assert(!self@.player_wf(all[i as int]));
                return false;
            }
            if !self.players[i].sat_out && !self.players[i].folded {
                live = live + 1;
            }
            i = i + 1;
        }
        assert(all.take(i as int) =~= all);
        live >= 2
    }

    /// Whether the table is in order, as every table is that the library has
    /// made: a table that was stored elsewhere is to be asked before it is used.
    pub fn is_in_order(&self) -> (r: bool)
        ensures
            r == self@.wf(),
    {
        if !self.table_is_in_order() {
            return false;
        }
        if self.stage.is_idle() {
            let mut i: usize = 0;
            while i < self.players.len()
                invariant
                    i <= self.players@.len() == self@.players.len(),
                    self@.stage.idle(),
                    forall|k: int| 0 <= k < i ==> (#[trigger] self@.players[k]).total_bet == 0 && self@.players[k].bet_in_round == 0,
                decreases self.players@.len() - i,
            {
                assert(self@.players[i as int] == self.players@[i as int]@);
                if self.players[i].total_bet != 0 || self.players[i].bet_in_round != 0 {
                    return false;
                }
                i = i + 1;
            }
            true
        } else if self.stage.is_betting() {
            self.hand_is_in_order()
        } else {
            false
        }
    }
}

} // verus!
