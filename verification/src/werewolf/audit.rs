//! Whether a game that comes from elsewhere is in order.

use vstd::prelude::*;
use crate::text::same_text;
use super::model::{said_view, seat_in, seats_in, votes_in};
use super::{Speeches, WolfGame, WolfStage};

verus! {

fn seat_fits(seat: Option<usize>, n: usize) -> (r: bool)
    ensures
        r == seat_in(seat, n as nat),
{
    match seat {
        Some(i) => i < n,
        None => true,
    }
}

fn seats_fit(seats: &Vec<usize>, n: usize) -> (r: bool)
    ensures
        r == seats_in(seats@, n as nat),
{
    let mut i: usize = 0;
    while i < seats.len()
        invariant
            i <= seats@.len(),
            forall|k: int| 0 <= k < i ==> #[trigger] seats@[k] < n,
        decreases seats@.len() - i,
    {
        if seats[i] >= n {
            assert(!(seats@[i as int] < n));
            return false;
        }
        i = i + 1;
    }
    true
}

fn votes_fit(votes: &Vec<(usize, Option<usize>)>, n: usize) -> (r: bool)
    ensures
        r == votes_in(votes@, n as nat),
{
    let mut i: usize = 0;
    while i < votes.len()
        invariant
            i <= votes@.len(),
            forall|k: int| 0 <= k < i ==> (#[trigger] votes@[k]).0 < n && seat_in(votes@[k].1, n as nat),
        decreases votes@.len() - i,
    {
        if votes[i].0 >= n || !seat_fits(votes[i].1, n) {
            assert(!(votes@[i as int].0 < n && seat_in(votes@[i as int].1, n as nat)));
            return false;
        }
        i = i + 1;
    }
    true
}

/// Each text is of a seat.
spec fn said_in(said: Seq<(usize, Seq<char>)>, n: nat) -> bool {
    forall|i: int| 0 <= i < said.len() ==> (#[trigger] said[i]).0 < n
}

fn said_fits(said: &Vec<(usize, String)>, n: usize) -> (r: bool)
    ensures
        r == said_in(said_view(said@), n as nat),
{
    let mut i: usize = 0;
    while i < said.len()
        invariant
            i <= said@.len(),
            forall|k: int| 0 <= k < i ==> (#[trigger] said_view(said@)[k]).0 < n,
        decreases said@.len() - i,
    {
        assert(said_view(said@)[i as int].0 == said@[i as int].0);
        if said[i].0 >= n {
            return false;
        }
        i = i + 1;
    }
    true
}

fn speeches_fit(s: &Speeches, n: usize) -> (r: bool)
    ensures
        r == s@.wf(n as nat),
{
    assert(s.order.len() <= usize::MAX);
    let fits = s.next <= s.order.len() && seats_fit(&s.order, n) && said_fits(&s.said, n);
    assert(said_in(s@.said, n as nat) == (forall|i: int| 0 <= i < s@.said.len() ==> (#[trigger] s@.said[i]).0 < n));
    fits
}

impl WolfGame {
    fn wolf_ids_are_distinct(&self) -> (r: bool)
        ensures
            r == (forall|i: int, j: int|
                0 <= i < j < self@.players.len() ==> (#[trigger] self@.players[i]).open_id != (#[trigger] self@.players[j]).open_id),
    {
        let mut i: usize = 0;
        while i < self.players.len()
            invariant
                i <= self.players@.len() == self@.players.len(),
                forall|k: int, l: int|
                    0 <= k < i && k < l < self@.players.len() ==> (#[trigger] self@.players[k]).open_id != (#[trigger] self@.players[l]).open_id,
            decreases self.players@.len() - i,
        {
            let mut j: usize = i + 1;
            while j < self.players.len()
                invariant
                    i < j <= self.players@.len() == self@.players.len(),
                    forall|l: int| i < l < j ==> self@.players[i as int].open_id != (#[trigger] self@.players[l]).open_id,
                decreases self.players@.len() - j,
            {
                assert(self@.players[i as int] == self.players@[i as int]@);
                assert(self@.players[j as int] == self.players@[j as int]@);
                if same_text(self.players[i].open_id.as_str(), self.players[j].open_id.as_str()) {
                    return false;
                }
                j = j + 1;
            }
            i = i + 1;
        }
        true
    }

    /// Everybody has a role.
    fn roles_are_dealt(&self) -> (r: bool)
        ensures
            r == (forall|i: int| 0 <= i < self@.players.len() ==> (#[trigger] self@.players[i]).role is Some),
    {
        let mut i: usize = 0;
        while i < self.players.len()
            invariant
                i <= self.players@.len() == self@.players.len(),
                forall|k: int| 0 <= k < i ==> (#[trigger] self@.players[k]).role is Some,
            decreases self.players@.len() - i,
        {
            assert(self@.players[i as int] == self.players@[i as int]@);
            if self.players[i].role.is_none() {
                return false;
            }
            i = i + 1;
        }
        true
    }

    /// What was chosen and found out at night speaks of seats.
    fn night_fits(&self, n: usize) -> (r: bool)
        ensures
            r == ({
                &&& forall|i: int| 0 <= i < self@.wolf_kill_votes.len() ==> (#[trigger] self@.wolf_kill_votes[i]).0 < n && self@.wolf_kill_votes[i].1 < n
                &&& forall|i: int| 0 <= i < self@.seer_history.len() ==> (#[trigger] self@.seer_history[i]).target_idx < n
                &&& forall|i: int| 0 <= i < self@.sheriff_nominations.len() ==> (#[trigger] self@.sheriff_nominations[i]).0 < n
            }),
    {
        let mut i: usize = 0;
        while i < self.wolf_kill_votes.len()
            invariant
                i <= self.wolf_kill_votes@.len() == self@.wolf_kill_votes.len(),
                forall|k: int| 0 <= k < i ==> (#[trigger] self@.wolf_kill_votes[k]).0 < n && self@.wolf_kill_votes[k].1 < n,
            decreases self.wolf_kill_votes@.len() - i,
        {
            if self.wolf_kill_votes[i].0 >= n || self.wolf_kill_votes[i].1 >= n {
                assert(!(self@.wolf_kill_votes[i as int].0 < n && self@.wolf_kill_votes[i as int].1 < n));
                return false;
            }
            i = i + 1;
        }
        let mut i: usize = 0;
        while i < self.seer_history.len()
            invariant
                i <= self.seer_history@.len() == self@.seer_history.len(),
                forall|k: int| 0 <= k < i ==> (#[trigger] self@.seer_history[k]).target_idx < n,
            decreases self.seer_history@.len() - i,
        {
            if self.seer_history[i].target_idx >= n {
                assert(!(self@.seer_history[i as int].target_idx < n));
                return false;
            }
            i = i + 1;
        }
        let mut i: usize = 0;
        while i < self.sheriff_nominations.len()
            invariant
                i <= self.sheriff_nominations@.len() == self@.sheriff_nominations.len(),
                forall|k: int| 0 <= k < i ==> (#[trigger] self@.sheriff_nominations[k]).0 < n,
            decreases self.sheriff_nominations@.len() - i,
        {
            if self.sheriff_nominations[i].0 >= n {
                assert(!(self@.sheriff_nominations[i as int].0 < n));
                return false;
            }
            i = i + 1;
        }
        true
    }

    fn election_fits(&self) -> (r: bool)
        requires
            forall|i: int| 0 <= i < self@.sheriff_nominations.len() ==> (#[trigger] self@.sheriff_nominations[i]).0
                < self@.players.len(),
        ensures
            r == self@.election_wf(),
    {
        let electing = self.stage == WolfStage::SheriffNominate || self.stage == WolfStage::SheriffSpeech || self.stage
            == WolfStage::SheriffSideSpeech || self.stage == WolfStage::SheriffVote;
        assert(self.sheriff_nominations@.len() == self@.sheriff_nominations.len());
        if !electing {
            return self.sheriff_done || self.sheriff_nominations.len() == 0;
        }
        let mut i: usize = 0;
        while i < self.sheriff_nominations.len()
            invariant
                self@.in_election(),
                i <= self.sheriff_nominations@.len() == self@.sheriff_nominations.len(),
                forall|k: int| 0 <= k < self@.sheriff_nominations.len() ==> (#[trigger] self@.sheriff_nominations[k]).0
                    < self@.players.len(),
                forall|k: int| 0 <= k < i ==> self@.players[(#[trigger] self@.sheriff_nominations[k]).0 as int].alive,
            decreases self.sheriff_nominations@.len() - i,
        {
            let seat = self.sheriff_nominations[i].0;
            assert(self@.sheriff_nominations[i as int].0 == seat);
            assert(self@.players[seat as int] == self.players@[seat as int]@);
            if !self.players[seat].alive {
                assert(!self@.election_wf());
                return false;
            }
            i = i + 1;
        }
        true
    }

    /// Whether the game is in order, as every game is that the library has
    /// made: a game that was stored elsewhere is to be asked before it is used.
    pub fn is_in_order(&self) -> (r: bool)
        ensures
            r == self@.wf(),
    {
        let n = self.players.len();
        assert(n == self@.players.len());
        if n > 12 || !self.wolf_ids_are_distinct() {
            return false;
        }
        if self.stage != WolfStage::Lobby && (n < 9 || !self.roles_are_dealt()) {
            return false;
        }
        if !self.night_fits(n) || !self.election_fits() {
            return false;
        }
        if !said_fits(&self.wolf_chat, n) {
            assert(!said_in(self@.wolf_chat, n as nat));
            return false;
        }
        if !seat_fits(self.guard_target, n) || !seat_fits(self.last_guard_target, n) || !seat_fits(self.night_victim, n) {
            return false;
        }
        if !seat_fits(self.pending_hunter, n) || !seat_fits(self.pending_badge, n) || !seat_fits(self.sheriff_idx, n)
            || !seat_fits(self.lynched, n) {
            return false;
        }
        if !seats_fit(&self.wolf_ready, n) || !seats_fit(&self.night_deaths, n) {
            return false;
        }
        if !votes_fit(&self.sheriff_votes, n) || !votes_fit(&self.day_votes, n) {
            return false;
        }
        speeches_fit(&self.last_words, n) && speeches_fit(&self.sheriff_speech, n) && speeches_fit(&self.side_speech, n)
            && speeches_fit(&self.day_speech, n)
    }
}

} // verus!
