//! The table as a mathematical value: what the contracts speak of.

use vstd::prelude::*;
use crate::poker::{Card, DeckMode, HandRank};
use super::{
    ActOutcome, ActionLogEntry, Game, HandSummary, Persona, Player, PotPayout, ShowdownResult, Stage,
};

verus! {

#[verifier::ext_equal]
pub struct PlayerView {
    pub open_id: Seq<char>,
    pub name: Seq<char>,
    pub chips: int,
    pub hole: Seq<Card>,
    pub bet_in_round: int,
    pub total_bet: int,
    pub folded: bool,
    pub all_in: bool,
    pub acted_this_round: bool,
    pub sat_out: bool,
    pub is_ai: bool,
    pub persona: Option<Persona>,
}

impl View for Player {
    type V = PlayerView;

    open spec fn view(&self) -> PlayerView {
        PlayerView {
            open_id: self.open_id@,
            name: self.name@,
            chips: self.chips as int,
            hole: self.hole@,
            bet_in_round: self.bet_in_round as int,
            total_bet: self.total_bet as int,
            folded: self.folded,
            all_in: self.all_in,
            acted_this_round: self.acted_this_round,
            sat_out: self.sat_out,
            is_ai: self.is_ai,
            persona: self.persona,
        }
    }
}

#[verifier::ext_equal]
pub struct GameView {
    pub chat_id: Seq<char>,
    pub players: Seq<PlayerView>,
    pub stage: Stage,
    pub deck: Seq<Card>,
    pub community: Seq<Card>,
    pub current_bet: int,
    pub min_raise: int,
    pub small_blind: int,
    pub big_blind: int,
    pub dealer_idx: int,
    pub current_idx: int,
    pub hand_count: int,
    pub action_log: Seq<ActionLogEntry>,
    pub last_action_msg_id: Option<Seq<char>>,
    pub lobby_msg_id: Option<Seq<char>>,
    pub mode: DeckMode,
}

pub open spec fn text_view(t: Option<String>) -> Option<Seq<char>> {
    match t {
        Some(s) => Some(s@),
        None => None,
    }
}

pub open spec fn players_view(players: Seq<Player>) -> Seq<PlayerView> {
    players.map_values(|p: Player| p@)
}

impl View for Game {
    type V = GameView;

    open spec fn view(&self) -> GameView {
        GameView {
            chat_id: self.chat_id@,
            players: players_view(self.players@),
            stage: self.stage,
            deck: self.deck@,
            community: self.community@,
            current_bet: self.current_bet as int,
            min_raise: self.min_raise as int,
            small_blind: self.small_blind as int,
            big_blind: self.big_blind as int,
            dealer_idx: self.dealer_idx as int,
            current_idx: self.current_idx as int,
            hand_count: self.hand_count as int,
            action_log: self.action_log@,
            last_action_msg_id: text_view(self.last_action_msg_id),
            lobby_msg_id: text_view(self.lobby_msg_id),
            mode: self.mode,
        }
    }
}

#[verifier::ext_equal]
pub struct ShowdownView {
    pub player_idx: int,
    pub hole: Seq<Card>,
    pub best_five: Seq<Card>,
    pub rank: HandRank,
}

impl View for ShowdownResult {
    type V = ShowdownView;

    open spec fn view(&self) -> ShowdownView {
        ShowdownView {
            player_idx: self.player_idx as int,
            hole: self.hole@,
            best_five: self.best_five@,
            rank: self.rank,
        }
    }
}

#[verifier::ext_equal]
pub struct PayoutView {
    pub amount: int,
    pub winners: Seq<int>,
    pub note: Seq<char>,
}

impl View for PotPayout {
    type V = PayoutView;

    open spec fn view(&self) -> PayoutView {
        PayoutView {
            amount: self.amount as int,
            winners: self.winners@.map_values(|w: usize| w as int),
            note: self.note@,
        }
    }
}

#[verifier::ext_equal]
pub struct SummaryView {
    pub showdowns: Seq<ShowdownView>,
    pub payouts: Seq<PayoutView>,
}

impl View for HandSummary {
    type V = SummaryView;

    open spec fn view(&self) -> SummaryView {
        SummaryView {
            showdowns: self.showdowns@.map_values(|s: ShowdownResult| s@),
            payouts: self.payouts@.map_values(|p: PotPayout| p@),
        }
    }
}

pub open spec fn reveal_view(r: (Stage, Vec<Card>)) -> (Stage, Seq<Card>) {
    (r.0, r.1@)
}

#[verifier::ext_equal]
pub struct OutcomeView {
    pub log: ActionLogEntry,
    pub stage_cards: Option<(Stage, Seq<Card>)>,
    pub extra_stages: Seq<(Stage, Seq<Card>)>,
    pub summary: Option<SummaryView>,
}

impl View for ActOutcome {
    type V = OutcomeView;

    open spec fn view(&self) -> OutcomeView {
        OutcomeView {
            log: self.log,
            stage_cards: match self.stage_cards {
                Some(r) => Some(reveal_view(r)),
                None => None,
            },
            extra_stages: self.extra_stages@.map_values(|r: (Stage, Vec<Card>)| reveal_view(r)),
            summary: match self.summary {
                Some(s) => Some(s@),
                None => None,
            },
        }
    }
}

} // verus!
