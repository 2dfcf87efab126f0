//! One of every card of the poker table, to look at in a real client.

use vstd::prelude::*;
use vstd::string::*;
use crate::feishu::cards::{
    at, at_text, card, card_json, header, header_json, header_with_subtitle_json, is_simple_id, markdown,
    markdown_json,
};
use crate::feishu::json::{one_item, Json, JsonView};
use crate::game::view::{PayoutView, ShowdownView, SummaryView};
use crate::game::{ActionKind, ActionLogEntry, HandSummary, PotPayout, ShowdownResult, Stage};
use crate::poker::hand::{best_cards, best_five, category_name, category_title, hand_value};
use crate::poker::{Card, DeckMode, HandRank, Rank, Suit};
use crate::text::{decimal, plus, plus_number};
use super::cards::{
    amounts_fit, announcement_subtitle, announcement_text, build_action_announcement, build_error_card,
    build_hand_start_card, build_help_card, build_hole_card, build_lobby_card, build_reset_card, build_stage_card,
    build_state_card, build_summary_card, build_welcome_card, error_card_json, hand_start_json, help_card_json,
    hole_card_json, lobby_card_json, reset_card_json, seats_exist, stage_elements, stage_template, state_card_json,
    summary_elements, welcome_elements,
};
use super::snapshot::{GameSnapshot, PlayerSnapshot, PlayerSnapshotView, SnapshotView};

verus! {

pub open spec fn mock_player_view(id: Seq<char>, name: Seq<char>, chips: int, bet: int) -> PlayerSnapshotView {
    PlayerSnapshotView {
        open_id: id,
        name,
        chips,
        bet_in_round: bet,
        folded: false,
        all_in: false,
        sat_out: false,
        is_ai: false,
    }
}

fn mock_player(id: &str, name: &str, chips: u64, bet: u64) -> (r: PlayerSnapshot)
    ensures
        r@ == mock_player_view(id@, name@, chips as int, bet as int),
{
    PlayerSnapshot {
        open_id: id.to_owned(),
        name: name.to_owned(),
        chips,
        bet_in_round: bet,
        folded: false,
        all_in: false,
        sat_out: false,
        is_ai: false,
    }
}

/// Alice and Bob, with chips and bets.
pub open spec fn two_view(alice: Seq<char>, bob: Seq<char>, a: (int, int), b: (int, int)) -> Seq<PlayerSnapshotView> {
    seq![mock_player_view(alice, "Alice"@, a.0, a.1), mock_player_view(bob, "Bob"@, b.0, b.1)]
}

fn two(alice: &str, bob: &str, a: (u64, u64), b: (u64, u64)) -> (r: Vec<PlayerSnapshot>)
    ensures
        r@.map_values(|p: PlayerSnapshot| p@) == two_view(
            alice@,
            bob@,
            (a.0 as int, a.1 as int),
            (b.0 as int, b.1 as int),
        ),
{
    let mut r: Vec<PlayerSnapshot> = Vec::new();
    r.push(mock_player(alice, "Alice", a.0, a.1));
    r.push(mock_player(bob, "Bob", b.0, b.1));
    assert(r@.map_values(|p: PlayerSnapshot| p@) =~= two_view(
        alice@,
        bob@,
        (a.0 as int, a.1 as int),
        (b.0 as int, b.1 as int),
    ));
    r
}

pub open spec fn mock_card(rank: u8, suit: Suit) -> Card {
    Card { rank: Rank(rank), suit }
}

/// The first three community cards.
pub open spec fn flop_view() -> Seq<Card> {
    seq![mock_card(10, Suit::Hearts), mock_card(11, Suit::Hearts), mock_card(7, Suit::Clubs)]
}

fn flop() -> (r: Vec<Card>)
    ensures
        r@ == flop_view(),
{
    let r = vec![
        Card { rank: Rank(10), suit: Suit::Hearts },
        Card { rank: Rank(11), suit: Suit::Hearts },
        Card { rank: Rank(7), suit: Suit::Clubs },
    ];
    assert(r@ =~= flop_view());
    r
}

pub open spec fn alice_hole_view() -> Seq<Card> {
    seq![mock_card(14, Suit::Spades), mock_card(13, Suit::Spades)]
}

fn alice_hole() -> (r: Vec<Card>)
    ensures
        r@ == alice_hole_view(),
{
    let r = vec![Card { rank: Rank(14), suit: Suit::Spades }, Card { rank: Rank(13), suit: Suit::Spades }];
    assert(r@ =~= alice_hole_view());
    r
}

pub open spec fn bob_hole_view() -> Seq<Card> {
    seq![mock_card(12, Suit::Hearts), mock_card(12, Suit::Diamonds)]
}

fn bob_hole() -> (r: Vec<Card>)
    ensures
        r@ == bob_hole_view(),
{
    let r = vec![Card { rank: Rank(12), suit: Suit::Hearts }, Card { rank: Rank(12), suit: Suit::Diamonds }];
    assert(r@ =~= bob_hole_view());
    r
}

pub open spec fn turn_card() -> Card {
    mock_card(13, Suit::Hearts)
}

pub open spec fn river_card() -> Card {
    mock_card(2, Suit::Diamonds)
}

/// A table with nothing on it.
pub open spec fn empty_view(chat_id: Seq<char>) -> SnapshotView {
    SnapshotView {
        chat_id,
        stage: Stage::Lobby,
        hand_count: 0,
        community: Seq::empty(),
        pot: 0,
        current_bet: 0,
        min_raise: 10,
        big_blind: 10,
        dealer_idx: 0,
        current_open_id: None,
        players: Seq::empty(),
        viewer_hole: Seq::empty(),
    }
}

fn empty(chat_id: &str) -> (r: GameSnapshot)
    ensures
        r@ == empty_view(chat_id@),
{
    let r = GameSnapshot {
        chat_id: chat_id.to_owned(),
        stage: Stage::Lobby,
        hand_count: 0,
        community: Vec::new(),
        pot: 0,
        current_bet: 0,
        min_raise: 10,
        big_blind: 10,
        dealer_idx: 0,
        current_open_id: None,
        players: Vec::new(),
        viewer_hole: Vec::new(),
    };
    assert(r@ =~= empty_view(chat_id@));
    r
}

/// Two players wait for a hand.
pub open spec fn waiting_view(chat_id: Seq<char>, alice: Seq<char>, bob: Seq<char>) -> SnapshotView {
    SnapshotView { players: two_view(alice, bob, (1000, 0), (1000, 0)), ..empty_view(chat_id) }
}

fn waiting(chat_id: &str, alice: &str, bob: &str) -> (r: GameSnapshot)
    ensures
        r@ == waiting_view(chat_id@, alice@, bob@),
{
    let mut r = empty(chat_id);
    r.players = two(alice, bob, (1000, 0), (1000, 0));
    assert(r@ =~= waiting_view(chat_id@, alice@, bob@));
    r
}

/// A hand is being played.
pub open spec fn in_progress_view(chat_id: Seq<char>, alice: Seq<char>, bob: Seq<char>) -> SnapshotView {
    SnapshotView {
        stage: Stage::Flop,
        hand_count: 1,
        community: flop_view(),
        pot: 60,
        current_open_id: Some(alice),
        players: two_view(alice, bob, (970, 0), (970, 0)),
        ..empty_view(chat_id)
    }
}

fn in_progress(chat_id: &str, alice: &str, bob: &str) -> (r: GameSnapshot)
    ensures
        r@ == in_progress_view(chat_id@, alice@, bob@),
{
    let mut r = empty(chat_id);
    r.stage = Stage::Flop;
    r.hand_count = 1;
    r.community = flop();
    r.pot = 60;
    r.current_open_id = Some(alice.to_owned());
    r.players = two(alice, bob, (970, 0), (970, 0));
    assert(r@ =~= in_progress_view(chat_id@, alice@, bob@));
    r
}

/// A hand has just started: the blinds are paid.
pub open spec fn started_view(chat_id: Seq<char>, alice: Seq<char>, bob: Seq<char>) -> SnapshotView {
    SnapshotView {
        stage: Stage::PreFlop,
        hand_count: 1,
        pot: 15,
        current_bet: 10,
        current_open_id: Some(alice),
        players: two_view(alice, bob, (995, 5), (990, 10)),
        ..empty_view(chat_id)
    }
}

fn started(chat_id: &str, alice: &str, bob: &str) -> (r: GameSnapshot)
    ensures
        r@ == started_view(chat_id@, alice@, bob@),
{
    let mut r = empty(chat_id);
    r.stage = Stage::PreFlop;
    r.hand_count = 1;
    r.pot = 15;
    r.current_bet = 10;
    r.current_open_id = Some(alice.to_owned());
    r.players = two(alice, bob, (995, 5), (990, 10));
    assert(r@ =~= started_view(chat_id@, alice@, bob@));
    r
}

/// Alice is to act on the flop, and sees her own cards.
pub open spec fn mid_flop_view(chat_id: Seq<char>, alice: Seq<char>, bob: Seq<char>) -> SnapshotView {
    SnapshotView {
        current_bet: 20,
        min_raise: 20,
        players: two_view(alice, bob, (970, 0), (950, 20)),
        viewer_hole: alice_hole_view(),
        ..in_progress_view(chat_id, alice, bob)
    }
}

fn mid_flop(chat_id: &str, alice: &str, bob: &str) -> (r: GameSnapshot)
    ensures
        r@ == mid_flop_view(chat_id@, alice@, bob@),
{
    let mut r = in_progress(chat_id, alice, bob);
    r.current_bet = 20;
    r.min_raise = 20;
    r.players = two(alice, bob, (970, 0), (950, 20));
    r.viewer_hole = alice_hole();
    assert(r@ =~= mid_flop_view(chat_id@, alice@, bob@));
    r
}

/// Alice has raised to 60.
pub open spec fn raised_view(chat_id: Seq<char>, alice: Seq<char>, bob: Seq<char>) -> SnapshotView {
    SnapshotView {
        players: two_view(alice, bob, (910, 60), (950, 20)),
        pot: 120,
        current_bet: 60,
        current_open_id: Some(bob),
        ..mid_flop_view(chat_id, alice, bob)
    }
}

fn raised(chat_id: &str, alice: &str, bob: &str) -> (r: GameSnapshot)
    ensures
        r@ == raised_view(chat_id@, alice@, bob@),
{
    let mut r = mid_flop(chat_id, alice, bob);
    r.players = two(alice, bob, (910, 60), (950, 20));
    r.pot = 120;
    r.current_bet = 60;
    r.current_open_id = Some(bob.to_owned());
    assert(r@ =~= raised_view(chat_id@, alice@, bob@));
    r
}

pub open spec fn turn_view(chat_id: Seq<char>, alice: Seq<char>, bob: Seq<char>) -> SnapshotView {
    SnapshotView {
        stage: Stage::Turn,
        community: flop_view().push(turn_card()),
        ..mid_flop_view(chat_id, alice, bob)
    }
}

fn turn(chat_id: &str, alice: &str, bob: &str) -> (r: GameSnapshot)
    ensures
        r@ == turn_view(chat_id@, alice@, bob@),
{
    let mut r = mid_flop(chat_id, alice, bob);
    r.stage = Stage::Turn;
    r.community.push(Card { rank: Rank(13), suit: Suit::Hearts });
    assert(r@ =~= turn_view(chat_id@, alice@, bob@));
    r
}

pub open spec fn board_view() -> Seq<Card> {
    flop_view().push(turn_card()).push(river_card())
}

pub open spec fn river_view(chat_id: Seq<char>, alice: Seq<char>, bob: Seq<char>) -> SnapshotView {
    SnapshotView { stage: Stage::River, community: board_view(), ..turn_view(chat_id, alice, bob) }
}

fn river(chat_id: &str, alice: &str, bob: &str) -> (r: GameSnapshot)
    ensures
        r@ == river_view(chat_id@, alice@, bob@),
{
    let mut r = turn(chat_id, alice, bob);
    r.stage = Stage::River;
    r.community.push(Card { rank: Rank(2), suit: Suit::Diamonds });
    assert(r@ =~= river_view(chat_id@, alice@, bob@));
    r
}

// ---- the showdown ----

/// The best five of two hole cards and the board.
pub open spec fn best_of(hole: Seq<Card>) -> Seq<Card> {
    best_cards(hole + board_view(), DeckMode::Standard)
}

pub open spec fn rank_of(hole: Seq<Card>) -> HandRank {
    hand_value(best_of(hole), DeckMode::Standard)
}

/// Alice wins if her hand is better.
pub open spec fn mock_winner() -> int {
    if rank_of(alice_hole_view()).score() > rank_of(bob_hole_view()).score() { 0 } else { 1 }
}

pub open spec fn mock_summary_view() -> SummaryView {
    let best = if mock_winner() == 0 { rank_of(alice_hole_view()) } else { rank_of(bob_hole_view()) };
    SummaryView {
        showdowns: seq![
            ShowdownView {
                player_idx: 0,
                hole: alice_hole_view(),
                best_five: best_of(alice_hole_view()),
                rank: rank_of(alice_hole_view()),
            },
            ShowdownView {
                player_idx: 1,
                hole: bob_hole_view(),
                best_five: best_of(bob_hole_view()),
                rank: rank_of(bob_hole_view()),
            },
        ],
        payouts: seq![
            PayoutView {
                amount: 120,
                winners: seq![mock_winner()],
                note: category_title(best.category, DeckMode::Standard),
            },
        ],
    }
}

/// The best five of two hole cards and the board, and what they are worth.
fn show(hole: &Vec<Card>) -> (r: (HandRank, Vec<Card>))
    requires
        hole@ == alice_hole_view() || hole@ == bob_hole_view(),
    ensures
        r.1@ == best_of(hole@),
        r.0 == rank_of(hole@),
{
    let mut seven: Vec<Card> = Vec::new();
    seven.push(hole[0]);
    seven.push(hole[1]);
    let mut five = flop();
    seven.append(&mut five);
    seven.push(Card { rank: Rank(13), suit: Suit::Hearts });
    seven.push(Card { rank: Rank(2), suit: Suit::Diamonds });
    assert(seven@ =~= hole@ + board_view());
    best_five(seven.as_slice(), DeckMode::Standard)
}

/// What the showdown of the mock hand comes to.
pub fn mock_summary() -> (r: (HandSummary, usize))
    ensures
        r.0@ == mock_summary_view(),
        r.1 == mock_winner(),
{
    let a = alice_hole();
    let b = bob_hole();
    let (a_rank, a_best) = show(&a);
    let (b_rank, b_best) = show(&b);
    let winner: usize = if a_rank > b_rank { 0 } else { 1 };
    let best = if winner == 0 { a_rank.category } else { b_rank.category };
    let winners = vec![winner];
    let payout = PotPayout { amount: 120, winners, note: category_name(best, DeckMode::Standard).to_owned() };
    let mut showdowns: Vec<ShowdownResult> = Vec::new();
    showdowns.push(ShowdownResult { player_idx: 0, hole: a, best_five: a_best, rank: a_rank });
    showdowns.push(ShowdownResult { player_idx: 1, hole: b, best_five: b_best, rank: b_rank });
    let mut payouts: Vec<PotPayout> = Vec::new();
    payouts.push(payout);
    let r = HandSummary { showdowns, payouts };
    proof {
        assert(r@.showdowns =~= mock_summary_view().showdowns);
        assert(payout@.winners =~= seq![mock_winner()]);
        assert(r@.payouts =~= mock_summary_view().payouts);
    }
    (r, winner)
}

/// The table when the pot has been handed out.
pub open spec fn showdown_view(chat_id: Seq<char>, alice: Seq<char>, bob: Seq<char>) -> SnapshotView {
    SnapshotView {
        stage: Stage::Showdown,
        pot: 120,
        players: if mock_winner() == 0 {
            two_view(alice, bob, (1030, 0), (910, 20))
        } else {
            two_view(alice, bob, (910, 0), (1030, 20))
        },
        ..river_view(chat_id, alice, bob)
    }
}

fn showdown(chat_id: &str, alice: &str, bob: &str, winner: usize) -> (r: GameSnapshot)
    requires
        winner == mock_winner(),
    ensures
        r@ == showdown_view(chat_id@, alice@, bob@),
{
    let mut r = river(chat_id, alice, bob);
    r.stage = Stage::Showdown;
    r.pot = 120;
    r.players = if winner == 0 {
        two(alice, bob, (1030, 0), (910, 20))
    } else {
        two(alice, bob, (910, 0), (1030, 20))
    };
    assert(r@ =~= showdown_view(chat_id@, alice@, bob@));
    r
}

// ---- the gallery ----

/// A card to look at: what it is, whether it is for one player's eyes, and the
/// card.
#[derive(Debug)]
pub struct MockCard {
    pub name: &'static str,
    pub private: bool,
    pub card: Json,
}

#[verifier::ext_equal]
pub struct MockCardView {
    pub name: Seq<char>,
    pub private: bool,
    pub card: JsonView,
}

impl View for MockCard {
    type V = MockCardView;

    open spec fn view(&self) -> MockCardView {
        MockCardView { name: self.name@, private: self.private, card: self.card@ }
    }
}

pub open spec fn label_card_json(n: nat, name: Seq<char>) -> JsonView {
    card_json(header_json("🧪 Mock #"@ + decimal(n), "grey"@), seq![markdown_json("**"@ + name + "**"@)])
}

/// The card that announces the mock with this number.
pub fn build_label_card(n: u32, name: &str) -> (r: Json)
    ensures
        r@ == label_card_json(n as nat, name@),
{
    let title = plus_number("🧪 Mock #".to_owned(), n as u64);
    let text = plus(plus("**".to_owned(), name), "**");
    card(header(title.as_str(), "grey"), one_item(markdown(text.as_str())))
}

pub open spec fn mock_chips_text(alice: Seq<char>, bob: Seq<char>) -> Seq<char> {
    "• "@ + at_text(alice) + " (Alice) — **970** 筹码\n• "@ + at_text(bob) + " (Bob) — **1030** 筹码"@
}

fn mock_chips(alice: &str, bob: &str) -> (r: Json)
    ensures
        r@ == card_json(header_json("筹码"@, "blue"@), seq![markdown_json(mock_chips_text(alice@, bob@))]),
{
    let s = plus(plus("• ".to_owned(), at(alice).as_str()), " (Alice) — **970** 筹码\n• ");
    let s = plus(plus(s, at(bob).as_str()), " (Bob) — **1030** 筹码");
    card(header("筹码", "blue"), one_item(markdown(s.as_str())))
}

pub open spec fn announcement_json(snap: SnapshotView, log: ActionLogEntry) -> JsonView {
    card_json(
        header_with_subtitle_json("🎴 行动"@, announcement_subtitle(snap), "wathet"@),
        seq![markdown_json(announcement_text(snap, log))],
    )
}

pub open spec fn stage_json(stage: Stage, new_cards: Seq<Card>, snap: SnapshotView) -> JsonView {
    card_json(
        header_with_subtitle_json("🂠 "@ + stage.title(), "底池 "@ + decimal(snap.pot as nat), stage_template(stage)),
        stage_elements(new_cards, snap.community),
    )
}

pub open spec fn summary_json(snap: SnapshotView, summary: SummaryView) -> JsonView {
    card_json(
        header_with_subtitle_json("🏆 牌局结束"@, "第 "@ + decimal(snap.hand_count as nat) + " 局"@, "turquoise"@),
        summary_elements(snap, summary, DeckMode::Standard),
    )
}

/// Before a hand.
pub open spec fn lobby_mocks(chat_id: Seq<char>, alice: Seq<char>, bob: Seq<char>) -> Seq<MockCardView> {
    seq![
        MockCardView { name: "/poker help (仅请求者可见)"@, private: true, card: help_card_json() },
        MockCardView {
            name: "新成员入群 - 欢迎卡 (仅他可见)"@,
            private: true,
            card: card_json(
                header_with_subtitle_json("🎰 欢迎来到牌桌"@, "群里在玩德州扑克"@, "turquoise"@),
                welcome_elements(chat_id, "Alice"@),
            ),
        },
        MockCardView { name: "大厅 - 空桌"@, private: false, card: lobby_card_json(empty_view(chat_id), false, None) },
        MockCardView {
            name: "大厅 - 两位玩家就座 (可点开局)"@,
            private: false,
            card: lobby_card_json(waiting_view(chat_id, alice, bob), false, None),
        },
        MockCardView {
            name: "大厅 - 牌局进行中 (无按钮)"@,
            private: false,
            card: lobby_card_json(in_progress_view(chat_id, alice, bob), false, None),
        },
    ]
}

/// While a hand is played; the action card's form has a name of its own.
pub open spec fn hand_mocks(chat_id: Seq<char>, alice: Seq<char>, bob: Seq<char>, public_id: Seq<char>, id: Seq<char>) -> Seq<MockCardView> {
    seq![
        MockCardView {
            name: "牌局开始公告"@,
            private: false,
            card: hand_start_json(started_view(chat_id, alice, bob)),
        },
        MockCardView {
            name: "手牌 (私人临时消息，仅你可见)"@,
            private: true,
            card: hole_card_json(1, alice_hole_view()),
        },
        MockCardView {
            name: "状态卡 - 公开版 (无按钮)"@,
            private: false,
            card: state_card_json(mid_flop_view(chat_id, alice, bob), false, public_id),
        },
        MockCardView {
            name: "行动卡 - 私人版 (form + input + 按钮)"@,
            private: true,
            card: state_card_json(mid_flop_view(chat_id, alice, bob), true, id),
        },
        MockCardView {
            name: "行动公告 - 加注后 (公开)"@,
            private: false,
            card: announcement_json(
                raised_view(chat_id, alice, bob),
                ActionLogEntry { player_idx: 0, kind: ActionKind::Raise, amount: 60 },
            ),
        },
        MockCardView {
            name: "翻牌 (Flop) - 公共牌方块"@,
            private: false,
            card: stage_json(Stage::Flop, flop_view(), mid_flop_view(chat_id, alice, bob)),
        },
        MockCardView {
            name: "转牌 (Turn)"@,
            private: false,
            card: stage_json(Stage::Turn, seq![turn_card()], turn_view(chat_id, alice, bob)),
        },
        MockCardView {
            name: "河牌 (River)"@,
            private: false,
            card: stage_json(Stage::River, seq![river_card()], river_view(chat_id, alice, bob)),
        },
    ]
}

/// After a hand.
pub open spec fn after_mocks(chat_id: Seq<char>, alice: Seq<char>, bob: Seq<char>) -> Seq<MockCardView> {
    seq![
        MockCardView {
            name: "摊牌总结"@,
            private: false,
            card: summary_json(showdown_view(chat_id, alice, bob), mock_summary_view()),
        },
        MockCardView {
            name: "/poker chips (仅请求者可见)"@,
            private: true,
            card: card_json(header_json("筹码"@, "blue"@), seq![markdown_json(mock_chips_text(alice, bob))]),
        },
        MockCardView { name: "/poker reset 通知 (公开)"@, private: false, card: reset_card_json() },
        MockCardView {
            name: "错误反馈 (仅报错者可见)"@,
            private: true,
            card: error_card_json("⚠️"@, "当前没有牌局"@),
        },
    ]
}

pub open spec fn mocks_view(mocks: Seq<MockCard>) -> Seq<MockCardView> {
    mocks.map_values(|m: MockCard| m@)
}

fn append_mock(list: &mut Vec<MockCard>, name: &'static str, private: bool, card: Json)
    ensures
        mocks_view(final(list)@) == mocks_view(old(list)@).push(MockCardView { name: name@, private, card: card@ }),
{
    list.push(MockCard { name, private, card });
    assert(mocks_view(list@) =~= mocks_view(old(list)@).push(MockCardView { name: name@, private, card: card@ }));
}

fn build_lobby_mocks(chat_id: &str, alice: &str, bob: &str) -> (r: Vec<MockCard>)
    ensures
        mocks_view(r@) == lobby_mocks(chat_id@, alice@, bob@),
{
    let mut r: Vec<MockCard> = Vec::new();
    append_mock(&mut r, "/poker help (仅请求者可见)", true, build_help_card());
    append_mock(&mut r, "新成员入群 - 欢迎卡 (仅他可见)", true, build_welcome_card(chat_id, "Alice"));
    append_mock(&mut r, "大厅 - 空桌", false, build_lobby_card(&empty(chat_id), false, None));
    append_mock(&mut r, "大厅 - 两位玩家就座 (可点开局)", false, build_lobby_card(&waiting(chat_id, alice, bob), false, None));
    append_mock(&mut r, "大厅 - 牌局进行中 (无按钮)", false, build_lobby_card(&in_progress(chat_id, alice, bob), false, None));
    assert(mocks_view(r@) =~= lobby_mocks(chat_id@, alice@, bob@));
    r
}

fn build_hand_mocks(chat_id: &str, alice: &str, bob: &str) -> (r: Vec<MockCard>)
    ensures
        exists|public_id: Seq<char>, id: Seq<char>|
            is_simple_id(public_id) && is_simple_id(id) && mocks_view(r@) == #[trigger] hand_mocks(
                chat_id@,
                alice@,
                bob@,
                public_id,
                id,
            ),
{
    let mid = mid_flop(chat_id, alice, bob);
    proof {
        assert(amounts_fit(mid@));
    }
    let public_card = build_state_card(&mid, false);
    let action_card = build_state_card(&mid, true);
    let ghost public_id = choose|id: Seq<char>| is_simple_id(id) && public_card@ == #[trigger] state_card_json(mid@, false, id);
    let ghost id = choose|id: Seq<char>| is_simple_id(id) && action_card@ == #[trigger] state_card_json(mid@, true, id);
    let after = raised(chat_id, alice, bob);
    assert(after@.players.len() == after.players@.len());
    let log = ActionLogEntry { player_idx: 0, kind: ActionKind::Raise, amount: 60 };
    let turn_cards = vec![Card { rank: Rank(13), suit: Suit::Hearts }];
    let river_cards = vec![Card { rank: Rank(2), suit: Suit::Diamonds }];
    assert(turn_cards@ =~= seq![turn_card()]);
    assert(river_cards@ =~= seq![river_card()]);
    let mut r: Vec<MockCard> = Vec::new();
    append_mock(&mut r, "牌局开始公告", false, build_hand_start_card(&started(chat_id, alice, bob)));
    append_mock(&mut r, "手牌 (私人临时消息，仅你可见)", true, build_hole_card(1, alice_hole().as_slice()));
    append_mock(&mut r, "状态卡 - 公开版 (无按钮)", false, public_card);
    append_mock(&mut r, "行动卡 - 私人版 (form + input + 按钮)", true, action_card);
    append_mock(&mut r, "行动公告 - 加注后 (公开)", false, build_action_announcement(&after, &log));
    append_mock(
        &mut r,
        "翻牌 (Flop) - 公共牌方块",
        false,
        build_stage_card(Stage::Flop, flop().as_slice(), &mid),
    );
    append_mock(
        &mut r,
        "转牌 (Turn)",
        false,
        build_stage_card(Stage::Turn, turn_cards.as_slice(), &turn(chat_id, alice, bob)),
    );
    append_mock(
        &mut r,
        "河牌 (River)",
        false,
        build_stage_card(Stage::River, river_cards.as_slice(), &river(chat_id, alice, bob)),
    );
    assert(mocks_view(r@) =~= hand_mocks(chat_id@, alice@, bob@, public_id, id));
    r
}

fn build_after_mocks(chat_id: &str, alice: &str, bob: &str) -> (r: Vec<MockCard>)
    ensures
        mocks_view(r@) == after_mocks(chat_id@, alice@, bob@),
{
    let (summary, winner) = mock_summary();
    let table = showdown(chat_id, alice, bob, winner);
    assert(seats_exist(table@, summary@));
    let mut r: Vec<MockCard> = Vec::new();
    append_mock(&mut r, "摊牌总结", false, build_summary_card(&table, &summary, DeckMode::Standard));
    append_mock(&mut r, "/poker chips (仅请求者可见)", true, mock_chips(alice, bob));
    append_mock(&mut r, "/poker reset 通知 (公开)", false, build_reset_card());
    append_mock(&mut r, "错误反馈 (仅报错者可见)", true, build_error_card("⚠️", "当前没有牌局"));
    assert(mocks_view(r@) =~= after_mocks(chat_id@, alice@, bob@));
    r
}

/// One of every card, in the order in which they are shown.
pub fn mock_cards(chat_id: &str, alice: &str, bob: &str) -> (r: Vec<MockCard>)
    ensures
        exists|public_id: Seq<char>, id: Seq<char>|
            is_simple_id(public_id) && is_simple_id(id) && mocks_view(r@) == lobby_mocks(chat_id@, alice@, bob@)
                + #[trigger] hand_mocks(chat_id@, alice@, bob@, public_id, id) + after_mocks(chat_id@, alice@, bob@),
{
    let mut r = build_lobby_mocks(chat_id, alice, bob);
    let mut hand = build_hand_mocks(chat_id, alice, bob);
    let mut after = build_after_mocks(chat_id, alice, bob);
    let ghost (a, b, c) = (mocks_view(r@), mocks_view(hand@), mocks_view(after@));
    r.append(&mut hand);
    r.append(&mut after);
    assert(mocks_view(r@) =~= a + b + c);
    r
}

} // verus!
