//! What the chat is shown after an action.

use vstd::prelude::*;
use crate::feishu::json::{append_item, list_view, no_items, Json, JsonView};
use crate::game::view::{GameView, OutcomeView, SummaryView};
use crate::game::{ActOutcome, Game, HandSummary, Stage};
use crate::poker::{Card, DeckMode};
use super::cards::{
    build_action_announcement, build_stage_card, build_summary_card, seats_exist, summary_elements,
};
use super::mocks::{announcement_json, stage_json};
use super::snapshot::{GameSnapshot, SnapshotView};
use crate::feishu::cards::{card_json, header_with_subtitle_json};
use crate::text::decimal;

verus! {

/// What comes after the cards.
#[derive(Debug, Clone, Copy, PartialEq, Eq, Structural)]
pub enum AfterAction {
    /// The hand is over: the lobby card is posted anew, below the others.
    NewLobby,
    /// Somebody is to act: they get their action card.
    PromptActor,
    Nothing,
}

pub open spec fn summary_card_json(snap: SnapshotView, summary: SummaryView, mode: DeckMode) -> JsonView {
    card_json(
        header_with_subtitle_json("🏆 牌局结束"@, "第 "@ + decimal(snap.hand_count as nat) + " 局"@, "turquoise"@),
        summary_elements(snap, summary, mode),
    )
}

/// The cards in order: who did what, the cards that came, and the end of the
/// hand.
pub open spec fn outcome_cards_json(snap: SnapshotView, o: OutcomeView, mode: DeckMode) -> Seq<JsonView> {
    let first = seq![announcement_json(snap, o.log)];
    let stage = match o.stage_cards {
        Some((s, cards)) => first.push(stage_json(s, cards, snap)),
        None => first,
    };
    let stages = stage + o.extra_stages.map_values(|r: (Stage, Seq<Card>)| stage_json(r.0, r.1, snap));
    match o.summary {
        Some(s) => stages.push(summary_card_json(snap, s, mode)),
        None => stages,
    }
}

/// Every seat that the outcome speaks of is at the table.
pub open spec fn outcome_seats_exist(snap: SnapshotView, o: OutcomeView) -> bool {
    &&& o.log.player_idx < snap.players.len()
    &&& o.summary is Some ==> seats_exist(snap, o.summary->0)
}

fn check_summary(snap: &GameSnapshot, summary: &HandSummary) -> (r: bool)
    ensures
        r == seats_exist(snap@, summary@),
{
    let n = snap.players.len();
    assert(n == snap@.players.len());
    let mut i: usize = 0;
    while i < summary.showdowns.len()
        invariant
            n == snap@.players.len(),
            i <= summary.showdowns@.len() == summary@.showdowns.len(),
            forall|k: int| 0 <= k < i ==> 0 <= (#[trigger] summary@.showdowns[k]).player_idx < n,
        decreases summary.showdowns@.len() - i,
    {
        assert(summary@.showdowns[i as int] == summary.showdowns@[i as int]@);
        if summary.showdowns[i].player_idx >= n {
            return false;
        }
        i = i + 1;
    }
    let mut i: usize = 0;
    while i < summary.payouts.len()
        invariant
            n == snap@.players.len(),
            i <= summary.payouts@.len() == summary@.payouts.len(),
            forall|k: int, j: int|
                0 <= k < i && 0 <= j < summary@.payouts[k].winners.len() ==> 0 <= #[trigger] summary@.payouts[k].winners[j] < n,
        decreases summary.payouts@.len() - i,
    {
        assert(summary@.payouts[i as int] == summary.payouts@[i as int]@);
        let p = &summary.payouts[i];
        let mut j: usize = 0;
        while j < p.winners.len()
            invariant
                n == snap@.players.len(),
                i < summary.payouts@.len() == summary@.payouts.len(),
                p@ == summary@.payouts[i as int],
                j <= p.winners@.len() == summary@.payouts[i as int].winners.len(),
                forall|l: int| 0 <= l < j ==> 0 <= #[trigger] summary@.payouts[i as int].winners[l] < n,
            decreases p.winners@.len() - j,
        {
            assert(summary@.payouts[i as int].winners[j as int] == p.winners@[j as int]);
            if p.winners[j] >= n {
                return false;
            }
            j = j + 1;
        }
        i = i + 1;
    }
    true
}

/// The cards that the chat is shown after an action, unless the outcome speaks
/// of seats that the table does not have.
pub fn outcome_cards(snap: &GameSnapshot, outcome: &ActOutcome, mode: DeckMode) -> (r: Option<Vec<Json>>)
    ensures
        r is Some <==> outcome_seats_exist(snap@, outcome@),
        r is Some ==> list_view(r->0@) == outcome_cards_json(snap@, outcome@, mode),
{
    assert(snap.players@.len() == snap@.players.len());
    if outcome.log.player_idx >= snap.players.len() {
        return None;
    }
    if let Some(s) = &outcome.summary {
        if !check_summary(snap, s) {
            return None;
        }
    }
    let mut out = no_items();
    append_item(&mut out, build_action_announcement(snap, &outcome.log));
    assert(list_view(out@) =~= seq![announcement_json(snap@, outcome@.log)]);
    if let Some((stage, cards)) = &outcome.stage_cards {
        append_item(&mut out, build_stage_card(*stage, cards.as_slice(), snap));
    }
    let ghost so_far = list_view(out@);
    let ghost extra = outcome@.extra_stages.map_values(|r: (Stage, Seq<Card>)| stage_json(r.0, r.1, snap@));
    assert(so_far + extra.take(0) =~= so_far);
    let mut i: usize = 0;
    while i < outcome.extra_stages.len()
        invariant
            extra == outcome@.extra_stages.map_values(|r: (Stage, Seq<Card>)| stage_json(r.0, r.1, snap@)),
            i <= outcome.extra_stages@.len() == extra.len(),
            list_view(out@) == so_far + extra.take(i as int),
        decreases extra.len() - i,
    {
        let (stage, cards) = &outcome.extra_stages[i];
        assert(extra[i as int] == stage_json(*stage, cards@, snap@));
        append_item(&mut out, build_stage_card(*stage, cards.as_slice(), snap));
        assert(so_far + extra.take(i + 1) =~= (so_far + extra.take(i as int)).push(extra[i as int]));
        i = i + 1;
    }
    assert(extra.take(i as int) =~= extra);
    if let Some(s) = &outcome.summary {
        append_item(&mut out, build_summary_card(snap, s, mode));
    }
    Some(out)
}

pub open spec fn after_outcome(g: GameView, o: OutcomeView) -> AfterAction {
    if o.summary is Some {
        AfterAction::NewLobby
    } else if g.stage.betting() && g.current_idx < g.players.len() {
        AfterAction::PromptActor
    } else {
        AfterAction::Nothing
    }
}

/// What comes after the cards: the lobby when the hand is over, otherwise the
/// next actor's card.
pub fn after_action(game: &Game, outcome: &ActOutcome) -> (r: AfterAction)
    ensures
        r == after_outcome(game@, outcome@),
{
    if outcome.summary.is_some() {
        AfterAction::NewLobby
    } else if game.stage.is_betting() && game.current_idx < game.players.len() {
        AfterAction::PromptActor
    } else {
        AfterAction::Nothing
    }
}

/// Whose move the table waits for.
#[derive(Debug, Clone, Copy, PartialEq, Eq, Structural)]
pub enum ActorStep {
    /// Nobody's: no hand is in play.
    Nobody,
    /// That of the AI player at this seat, who is asked.
    Ask(usize),
    /// That of the person at this seat, who gets the action card.
    Prompt(usize),
}

pub open spec fn actor_step(g: GameView) -> ActorStep {
    if !g.stage.betting() || g.current_idx >= g.players.len() {
        ActorStep::Nobody
    } else if g.players[g.current_idx].is_ai {
        ActorStep::Ask(g.current_idx as usize)
    } else {
        ActorStep::Prompt(g.current_idx as usize)
    }
}

/// Whose move the table waits for.
pub fn next_actor(game: &Game) -> (r: ActorStep)
    ensures
        r == actor_step(game@),
{
    assert(game.players@.len() == game@.players.len());
    if !game.stage.is_betting() || game.current_idx >= game.players.len() {
        return ActorStep::Nobody;
    }
    assert(game@.players[game.current_idx as int] == game.players@[game.current_idx as int]@);
    if game.players[game.current_idx].is_ai {
        ActorStep::Ask(game.current_idx)
    } else {
        ActorStep::Prompt(game.current_idx)
    }
}

} // verus!
