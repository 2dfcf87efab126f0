//! The public state of a table, for rendering.

use vstd::prelude::*;
use crate::game::table::{bets, bets_same, seat_of};
use crate::game::view::{GameView, PlayerView};
use crate::game::{Game, Stage};
use crate::poker::Card;

verus! {

/// Snapshot of a game's public state (no hidden cards) for rendering.
#[derive(Debug, Clone)]
pub struct GameSnapshot {
    pub chat_id: String,
    pub stage: Stage,
    pub hand_count: u32,
    pub community: Vec<Card>,
    pub pot: u64,
    pub current_bet: u64,
    pub min_raise: u64,
    pub big_blind: u64,
    pub dealer_idx: usize,
    pub current_open_id: Option<String>,
    pub players: Vec<PlayerSnapshot>,
    /// Hole cards of the user this snapshot is being rendered for. Empty
    /// unless the snapshot is being shown to a specific player (e.g. their
    /// own action prompt or a state reply).
    pub viewer_hole: Vec<Card>,
}

#[derive(Debug, Clone)]
pub struct PlayerSnapshot {
    pub open_id: String,
    pub name: String,
    pub chips: u64,
    pub bet_in_round: u64,
    pub folded: bool,
    pub all_in: bool,
    pub sat_out: bool,
    /// An AI player: the id names no user of the chat.
    pub is_ai: bool,
}

#[verifier::ext_equal]
pub struct PlayerSnapshotView {
    pub open_id: Seq<char>,
    pub name: Seq<char>,
    pub chips: int,
    pub bet_in_round: int,
    pub folded: bool,
    pub all_in: bool,
    pub sat_out: bool,
    pub is_ai: bool,
}

impl View for PlayerSnapshot {
    type V = PlayerSnapshotView;

    open spec fn view(&self) -> PlayerSnapshotView {
        PlayerSnapshotView {
            open_id: self.open_id@,
            name: self.name@,
            chips: self.chips as int,
            bet_in_round: self.bet_in_round as int,
            folded: self.folded,
            all_in: self.all_in,
            sat_out: self.sat_out,
            is_ai: self.is_ai,
        }
    }
}

#[verifier::ext_equal]
pub struct SnapshotView {
    pub chat_id: Seq<char>,
    pub stage: Stage,
    pub hand_count: int,
    pub community: Seq<Card>,
    pub pot: int,
    pub current_bet: int,
    pub min_raise: int,
    pub big_blind: int,
    pub dealer_idx: int,
    pub current_open_id: Option<Seq<char>>,
    pub players: Seq<PlayerSnapshotView>,
    pub viewer_hole: Seq<Card>,
}

impl View for GameSnapshot {
    type V = SnapshotView;

    open spec fn view(&self) -> SnapshotView {
        SnapshotView {
            chat_id: self.chat_id@,
            stage: self.stage,
            hand_count: self.hand_count as int,
            community: self.community@,
            pot: self.pot as int,
            current_bet: self.current_bet as int,
            min_raise: self.min_raise as int,
            big_blind: self.big_blind as int,
            dealer_idx: self.dealer_idx as int,
            current_open_id: crate::game::view::text_view(self.current_open_id),
            players: self.players@.map_values(|p: PlayerSnapshot| p@),
            viewer_hole: self.viewer_hole@,
        }
    }
}

/// What everybody may see of a player.
pub open spec fn public_part(p: PlayerView) -> PlayerSnapshotView {
    PlayerSnapshotView {
        open_id: p.open_id,
        name: p.name,
        chips: p.chips,
        bet_in_round: p.bet_in_round,
        folded: p.folded,
        all_in: p.all_in,
        sat_out: p.sat_out,
        is_ai: p.is_ai,
    }
}

/// The hole cards of the viewer, if there is one and they have a seat.
pub open spec fn hole_of(g: GameView, viewer: Option<Seq<char>>) -> Seq<Card> {
    match viewer {
        Some(id) => match seat_of(g.players, id, 0) {
            Some(i) => g.players[i].hole,
            None => Seq::empty(),
        },
        None => Seq::empty(),
    }
}

/// The table as the viewer may see it.
pub open spec fn snapshot_of(g: GameView, viewer: Option<Seq<char>>) -> SnapshotView {
    SnapshotView {
        chat_id: g.chat_id,
        stage: g.stage,
        hand_count: g.hand_count,
        community: g.community,
        pot: bets(g.players),
        current_bet: g.current_bet,
        min_raise: g.min_raise,
        big_blind: g.big_blind,
        dealer_idx: g.dealer_idx,
        current_open_id: if g.current_idx < g.players.len() {
            Some(g.players[g.current_idx].open_id)
        } else {
            None
        },
        players: g.players.map_values(|p: PlayerView| public_part(p)),
        viewer_hole: hole_of(g, viewer),
    }
}

/// What a snapshot shows does not depend on the hole cards of anybody but the
/// viewer.
pub proof fn snapshot_hides_other_hands(g: GameView, h: GameView, viewer: Option<Seq<char>>)
    requires
        0 <= g.current_idx,
        h.players.len() == g.players.len(),
        h == (GameView { players: h.players, ..g }),
        forall|i: int| 0 <= i < g.players.len() ==> #[trigger] h.players[i] == (PlayerView { hole: h.players[i].hole, ..g.players[i] }),
        hole_of(g, viewer) == hole_of(h, viewer),
    ensures
        snapshot_of(g, viewer) == snapshot_of(h, viewer),
{
    bets_same(g.players, h.players);
    if g.current_idx < g.players.len() {
        assert(h.players[g.current_idx].open_id == g.players[g.current_idx].open_id);
    }
    assert(snapshot_of(g, viewer).players =~= snapshot_of(h, viewer).players);
}

/// The table as everybody may see it.
pub fn snapshot(g: &Game) -> (r: GameSnapshot)
    requires
        bets(g@.players) <= u64::MAX,
    ensures
        r@ == snapshot_of(g@, None),
{
    snapshot_for(g, None)
}

/// Same as `snapshot` but also captures the named viewer's hole cards so they
/// can be rendered into a card meant only for that user.
pub fn snapshot_for(g: &Game, viewer_open_id: Option<&str>) -> (r: GameSnapshot)
    requires
        bets(g@.players) <= u64::MAX,
    ensures
        r@ == snapshot_of(
            g@,
            match viewer_open_id {
                Some(id) => Some(id@),
                None => None,
            },
        ),
{
    let ghost viewer = match viewer_open_id {
        Some(id) => Some(id@),
        None => None,
    };
    let mut viewer_hole: Vec<Card> = Vec::new();
    if let Some(id) = viewer_open_id {
        if let Some(i) = g.find_player(id) {
            assert(g@.players[i as int] == g.players@[i as int]@);
            viewer_hole.extend_from_slice(g.players[i].hole.as_slice());
        }
    }
    assert(viewer_hole@ =~= hole_of(g@, viewer));
    let mut players: Vec<PlayerSnapshot> = Vec::new();
    let mut i: usize = 0;
    while i < g.players.len()
        invariant
            i <= g.players@.len(),
            players@.len() == i,
            forall|k: int| 0 <= k < i ==> (#[trigger] players@[k])@ == public_part(g@.players[k]),
        decreases g.players@.len() - i,
    {
        let p = &g.players[i];
        assert(g@.players[i as int] == p@);
        players.push(
            PlayerSnapshot {
                open_id: p.open_id.clone(),
                name: p.name.clone(),
                chips: p.chips,
                bet_in_round: p.bet_in_round,
                folded: p.folded,
                all_in: p.all_in,
                sat_out: p.sat_out,
                is_ai: p.is_ai,
            },
        );
        i = i + 1;
    }
    let mut community: Vec<Card> = Vec::new();
    community.extend_from_slice(g.community.as_slice());
    assert(community@ =~= g@.community);
    let current_open_id = match g.current_player_open_id() {
        Some(id) => Some(id.to_owned()),
        None => None,
    };
    let snap = GameSnapshot {
        chat_id: g.chat_id.clone(),
        stage: g.stage,
        hand_count: g.hand_count,
        community,
        pot: g.pot_total(),
        current_bet: g.current_bet,
        min_raise: g.min_raise,
        big_blind: g.big_blind,
        dealer_idx: g.dealer_idx,
        current_open_id,
        players,
        viewer_hole,
    };
    assert(snap@.players =~= snapshot_of(g@, viewer).players);
    snap
}

} // verus!
