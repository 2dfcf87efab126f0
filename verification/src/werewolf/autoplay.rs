//! How the decisions of an AI player are carried out, so that the game never
//! waits for one.

use vstd::prelude::*;
use vstd::string::*;
use super::decisions::{option_view, WitchDecision, WolfPickDecision};
use super::model::{wolf_seat, wolf_seat_facts, WolfGameView};
use super::{Role, WolfError, WolfGame, WolfStage};

verus! {

/// The game after a move, or as it was where the move is refused.
pub open spec fn or_same(r: Result<WolfGameView, WolfError>, g: WolfGameView) -> WolfGameView {
    match r {
        Ok(h) => h,
        Err(_) => g,
    }
}

impl WolfGameView {
    pub open spec fn id_at(self, seat: usize) -> Seq<char> {
        self.players[seat as int].open_id
    }

    /// The AI guard protects whom they chose, or, where that is refused,
    /// themselves.
    pub open spec fn guard_played(self, seat: usize, target: usize) -> WolfGameView {
        match self.guard_result(self.id_at(seat), self.id_at(target)) {
            Ok(g) => g,
            Err(_) => or_same(self.guard_result(self.id_at(seat), self.id_at(seat)), self),
        }
    }

    /// The AI witch does what she decided, or, where that is refused, waits.
    pub open spec fn witch_played(self, seat: usize, decision: WitchDecision) -> WolfGameView {
        let id = self.id_at(seat);
        let first = match decision {
            WitchDecision::Save => self.witch_result(id, true, None),
            WitchDecision::Poison(t) => self.witch_result(id, false, Some(self.id_at(t))),
            WitchDecision::Skip => self.witch_result(id, false, None),
        };
        match first {
            Ok(g) => g,
            Err(_) => or_same(self.witch_result(id, false, None), self),
        }
    }

    /// An AI wolf chooses. In a pack with people they may say something, and
    /// their choice stands at once.
    pub open spec fn wolf_played(self, seat: usize, target: usize, chat: Option<Seq<char>>, speak: bool) -> WolfGameView {
        let id = self.id_at(seat);
        let chosen = or_same(self.wolf_pick_result(id, self.id_at(target)), self);
        if !speak {
            chosen
        } else {
            let said = match chat {
                Some(s) => or_same(chosen.wolf_say_result(id, s), chosen),
                None => chosen,
            };
            or_same(said.wolf_ready_result(id), said)
        }
    }
}

impl WolfGame {
    fn id_of(&self, seat: usize) -> (r: String)
        requires
            seat < self@.players.len(),
        ensures
            r@ == self@.id_at(seat),
    {
        assert(self@.players[seat as int] == self.players@[seat as int]@);
        self.players[seat].open_id.clone()
    }

    /// The AI guard at `seat` protects the player at `target`.
    pub fn play_guard(&mut self, seat: usize, target: usize)
        requires
            old(self)@.wf(),
            seat < old(self)@.players.len(),
            target < old(self)@.players.len(),
        ensures
            final(self)@.wf(),
            final(self)@ == old(self)@.guard_played(seat, target),
    {
        let id = self.id_of(seat);
        let whom = self.id_of(target);
        if self.guard_pick(id.as_str(), whom.as_str()).is_err() {
            let _ = self.guard_pick(id.as_str(), id.as_str());
        }
    }

    /// The AI witch at `seat` carries out her decision.
    pub fn play_witch(&mut self, seat: usize, decision: WitchDecision)
        requires
            old(self)@.wf(),
            seat < old(self)@.players.len(),
            decision is Poison ==> decision->Poison_0 < old(self)@.players.len(),
        ensures
            final(self)@.wf(),
            final(self)@ == old(self)@.witch_played(seat, decision),
    {
        let id = self.id_of(seat);
        let done = match decision {
            WitchDecision::Save => self.witch_act(id.as_str(), true, None),
            WitchDecision::Poison(t) => {
                let whom = self.id_of(t);
                self.witch_act(id.as_str(), false, Some(whom.as_str()))
            },
            WitchDecision::Skip => self.witch_act(id.as_str(), false, None),
        };
        if done.is_err() {
            let _ = self.witch_act(id.as_str(), false, None);
        }
    }

    /// The AI wolf at `seat` carries out their decision.
    pub fn play_wolf(&mut self, seat: usize, decision: WolfPickDecision, speak: bool)
        requires
            old(self)@.wf(),
            seat < old(self)@.players.len(),
            decision.target_idx < old(self)@.players.len(),
        ensures
            final(self)@.wf(),
            final(self)@ == old(self)@.wolf_played(seat, decision.target_idx, option_view(decision.chat), speak),
    {
        let id = self.id_of(seat);
        let whom = self.id_of(decision.target_idx);
        let _ = self.wolf_pick(id.as_str(), whom.as_str());
        if speak {
            if let Some(s) = decision.chat {
                let _ = self.wolf_say(id.as_str(), s);
            }
            let _ = self.wolf_mark_ready(id.as_str());
        }
    }
}

/// Everybody is found under their own id.
pub proof fn ones_own_seat(g: WolfGameView, i: usize)
    requires
        g.wf(),
        i < g.players.len(),
    ensures
        wolf_seat(g.players, g.id_at(i), 0) == Some(i),
{
    wolf_seat_facts(g.players, g.id_at(i), 0);
    let k = wolf_seat(g.players, g.id_at(i), 0)->0;
    if k < i {
        assert(g.players[k as int].open_id != g.players[i as int].open_id);
    } else if k > i {
        assert(g.players[i as int].open_id != g.players[k as int].open_id);
    }
}

/// Whatever the AI witch decides, the night ends.
pub proof fn the_witch_never_blocks(g: WolfGameView, seat: usize, decision: WitchDecision)
    requires
        g.wf(),
        g.stage == WolfStage::WitchAct,
        seat < g.players.len(),
        g.players[seat as int].role == Some(Role::Witch),
        g.players[seat as int].alive,
    ensures
        g.witch_played(seat, decision).stage == WolfStage::DayReveal,
{
    ones_own_seat(g, seat);
}

/// Whatever the AI guard decides, the night goes on, unless all that they may
/// do is protect themselves a second time running.
pub proof fn the_guard_never_blocks(g: WolfGameView, seat: usize, target: usize)
    requires
        g.wf(),
        g.stage == WolfStage::GuardPick,
        seat < g.players.len(),
        target < g.players.len(),
        g.players[seat as int].role == Some(Role::Guard),
        g.players[seat as int].alive,
        g.last_guard_target != Some(seat) || (g.players[target as int].alive && target != seat),
    ensures
        g.guard_played(seat, target).stage == WolfStage::WolvesPick,
{
    ones_own_seat(g, seat);
    ones_own_seat(g, target);
}

} // verus!
