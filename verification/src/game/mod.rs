//! A hold'em table: who sits at it, the hand in play, and the betting.

pub mod audit;
pub mod betting;
pub mod conduct;
pub mod deal;
pub mod dealing;
pub mod laws;
pub mod pots;
pub mod recovery;
pub mod seats;
pub mod shares;
pub mod showdown;
pub mod table;
pub mod view;
pub mod winnings;

pub use view::{GameView, PlayerView};
use vstd::prelude::*;
use vstd::string::*;
use rand::seq::IndexedRandom;
use crate::poker::{Card, Deck, DeckMode, HandRank};
use crate::text::{decimal, decimal_text};

verus! {

/// Personality archetype for an AI seat. It colours how the seat plays, which
/// gives the table some flavour for casual play.
#[derive(Debug, Clone, Copy, PartialEq, Eq, Structural)]
pub enum Persona {
    /// 莽哥 / LAG — 牌不挑、敢开火、敢加注、敢诈唬。
    LooseAggressive,
    /// 老炮 / TAG — 选牌严但出手猛，价值下注绝不手软。
    TightAggressive,
    /// 跟注站 / 松弱 — 上来就想看牌，跟到底，几乎不主动加注。
    LooseWeak,
    /// 老抠 / 紧弱 — 强牌才肯下场，从不诈唬。
    TightWeak,
    /// 头铁 / Maniac — 每手都想梭哈，弃牌不存在的。
    Maniac,
}

/// `IndexedRandom::choose` with the thread's generator takes one of the items; which one is chance.
#[verifier::external_body]
fn choose_one(all: &[Persona]) -> (r: Persona)
    requires
        all@.len() > 0,
    ensures
        all@.contains(r),
{
    *all.choose(&mut rand::rng()).unwrap()
}

impl Persona {
    pub open spec fn title(self) -> Seq<char> {
        match self {
            Persona::LooseAggressive => "莽哥"@,
            Persona::TightAggressive => "老炮"@,
            Persona::LooseWeak => "跟注站"@,
            Persona::TightWeak => "老抠"@,
            Persona::Maniac => "头铁"@,
        }
    }

    pub fn label(self) -> (r: &'static str)
        ensures
            r@ == self.title(),
    {
        match self {
            Persona::LooseAggressive => "莽哥",
            Persona::TightAggressive => "老炮",
            Persona::LooseWeak => "跟注站",
            Persona::TightWeak => "老抠",
            Persona::Maniac => "头铁",
        }
    }

    pub open spec fn portrait(self) -> Seq<char> {
        match self {
            Persona::LooseAggressive =>
                "上头型，看哪手牌都觉得能打。开池就加注，被加注就再加。靠气势压人，弃牌？看心情。"@,
            Persona::TightAggressive =>
                "老手了，一眼看穿牌强不强。烂牌直接扔，进底池就当真打。不爱诈唬，但价值下注绝不手软。"@,
            Persona::LooseWeak =>
                "上来就想看牌。手里只要有点东西就想跟到底，连对都没有也想再看一张。基本不主动加注，输了也认。"@,
            Persona::TightWeak =>
                "一毛不拔型。AA / KK / AK 这种强牌才肯下场，对手一加注就开始怀疑自己被打到。从不主动开火，从不诈唬。"@,
            Persona::Maniac =>
                "手感一来就梭哈，每手都想打到底，诈唬比谁都猛。弃牌？不存在的。"@,
        }
    }

    pub fn description(self) -> (r: &'static str)
        ensures
            r@ == self.portrait(),
    {
        match self {
            Persona::LooseAggressive =>
                "上头型，看哪手牌都觉得能打。开池就加注，被加注就再加。靠气势压人，弃牌？看心情。",
            Persona::TightAggressive =>
                "老手了，一眼看穿牌强不强。烂牌直接扔，进底池就当真打。不爱诈唬，但价值下注绝不手软。",
            Persona::LooseWeak =>
                "上来就想看牌。手里只要有点东西就想跟到底，连对都没有也想再看一张。基本不主动加注，输了也认。",
            Persona::TightWeak =>
                "一毛不拔型。AA / KK / AK 这种强牌才肯下场，对手一加注就开始怀疑自己被打到。从不主动开火，从不诈唬。",
            Persona::Maniac =>
                "手感一来就梭哈，每手都想打到底，诈唬比谁都猛。弃牌？不存在的。",
        }
    }

    pub open spec fn face(self) -> Seq<char> {
        match self {
            Persona::LooseAggressive => "🐺"@,
            Persona::TightAggressive => "🦈"@,
            Persona::LooseWeak => "🐟"@,
            Persona::TightWeak => "🪨"@,
            Persona::Maniac => "🤪"@,
        }
    }

    /// Single emoji that represents the persona visually — used as the "avatar"
    /// in chat-bubble cards so each AI has a recognisable face beyond just the
    /// name suffix.
    pub fn emoji(self) -> (r: &'static str)
        ensures
            r@ == self.face(),
    {
        match self {
            Persona::LooseAggressive => "🐺",
            Persona::TightAggressive => "🦈",
            Persona::LooseWeak => "🐟",
            Persona::TightWeak => "🪨",
            Persona::Maniac => "🤪",
        }
    }

    /// One of the five, at random. Each of them can come, so no more is said of it.
    pub fn random() -> (r: Self)
        ensures
            seq![
                Persona::LooseAggressive,
                Persona::TightAggressive,
                Persona::LooseWeak,
                Persona::TightWeak,
                Persona::Maniac,
            ].contains(r),
    {
        let all: [Persona; 5] = [
            Persona::LooseAggressive,
            Persona::TightAggressive,
            Persona::LooseWeak,
            Persona::TightWeak,
            Persona::Maniac,
        ];
        assert(all@ =~= seq![
            Persona::LooseAggressive,
            Persona::TightAggressive,
            Persona::LooseWeak,
            Persona::TightWeak,
            Persona::Maniac,
        ]);
        choose_one(&all)
    }
}

/// Default chip stack each player starts with.
pub const STARTING_CHIPS: u64 = 1000;

/// Small blind for every hand.
pub const SMALL_BLIND: u64 = 5;

/// Big blind for every hand.
pub const BIG_BLIND: u64 = 10;

/// Most players a table seats.
pub const MAX_PLAYERS: usize = 12;

#[derive(Debug, Clone)]
pub struct Player {
    pub open_id: String,
    pub name: String,
    pub chips: u64,
    pub hole: Vec<Card>,
    pub bet_in_round: u64,
    pub total_bet: u64,
    pub folded: bool,
    pub all_in: bool,
    pub acted_this_round: bool,
    /// Out of chips, skipped this hand.
    pub sat_out: bool,
    /// LLM-driven seat. `open_id` is a synthetic id like `ai:1` that names no
    /// user of the chat, so display code shows the name instead of a mention.
    pub is_ai: bool,
    /// Personality archetype for AI seats; `None` for humans.
    pub persona: Option<Persona>,
}

#[derive(Debug, Clone, Copy, PartialEq, Eq, Structural)]
pub enum Stage {
    Lobby,
    PreFlop,
    Flop,
    Turn,
    River,
    Showdown,
    Ended,
}

impl Stage {
    pub open spec fn title(self) -> Seq<char> {
        match self {
            Stage::Lobby => "等待玩家"@,
            Stage::PreFlop => "翻牌前"@,
            Stage::Flop => "翻牌"@,
            Stage::Turn => "转牌"@,
            Stage::River => "河牌"@,
            Stage::Showdown => "摊牌"@,
            Stage::Ended => "结束"@,
        }
    }

    pub fn label(self) -> (r: &'static str)
        ensures
            r@ == self.title(),
    {
        match self {
            Stage::Lobby => "等待玩家",
            Stage::PreFlop => "翻牌前",
            Stage::Flop => "翻牌",
            Stage::Turn => "转牌",
            Stage::River => "河牌",
            Stage::Showdown => "摊牌",
            Stage::Ended => "结束",
        }
    }

    /// Between hands: seats can be taken and left, and a hand can start.
    pub open spec fn idle(self) -> bool {
        self is Lobby || self is Ended
    }

    /// In a betting round.
    pub open spec fn betting(self) -> bool {
        self is PreFlop || self is Flop || self is Turn || self is River
    }

    pub fn is_idle(self) -> (r: bool)
        ensures
            r == self.idle(),
    {
        match self {
            Stage::Lobby | Stage::Ended => true,
            _ => false,
        }
    }

    pub fn is_betting(self) -> (r: bool)
        ensures
            r == self.betting(),
    {
        match self {
            Stage::PreFlop | Stage::Flop | Stage::Turn | Stage::River => true,
            _ => false,
        }
    }
}

#[derive(Debug, Clone, Copy, PartialEq, Eq, Structural)]
pub enum ActionKind {
    Fold,
    Check,
    Call,
    Bet,
    Raise,
    AllIn,
}

#[derive(Debug, Clone, Copy, PartialEq, Eq, Structural)]
pub enum PlayerAction {
    Fold,
    Check,
    Call,
    /// Raise so that the player's `bet_in_round` becomes `to`. Must be at least
    /// `current_bet + min_raise` (or all-in for less).
    RaiseTo(u64),
    AllIn,
}

#[derive(Debug, Clone, Copy, PartialEq, Eq, Structural)]
pub struct ActionLogEntry {
    pub player_idx: usize,
    pub kind: ActionKind,
    /// 0 for fold and check, otherwise `bet_in_round` after the action.
    pub amount: u64,
}

#[derive(Debug, Clone)]
pub struct ShowdownResult {
    pub player_idx: usize,
    pub hole: Vec<Card>,
    pub best_five: Vec<Card>,
    pub rank: HandRank,
}

#[derive(Debug, Clone)]
pub struct PotPayout {
    pub amount: u64,
    /// Seats of the winners.
    pub winners: Vec<usize>,
    pub note: String,
}

#[derive(Debug, Clone)]
pub struct HandSummary {
    pub showdowns: Vec<ShowdownResult>,
    pub payouts: Vec<PotPayout>,
}

#[derive(Debug)]
pub struct ActOutcome {
    pub log: ActionLogEntry,
    /// Cards revealed for the new stage (flop 3, turn and river 1).
    pub stage_cards: Option<(Stage, Vec<Card>)>,
    /// If several stages are dealt at once (all-in run-out), each stage's reveal.
    pub extra_stages: Vec<(Stage, Vec<Card>)>,
    pub summary: Option<HandSummary>,
}

#[derive(Debug, Clone)]
pub struct Game {
    pub chat_id: String,
    pub players: Vec<Player>,
    pub stage: Stage,
    pub deck: Deck,
    pub community: Vec<Card>,
    pub current_bet: u64,
    pub min_raise: u64,
    pub small_blind: u64,
    pub big_blind: u64,
    pub dealer_idx: usize,
    pub current_idx: usize,
    pub hand_count: u32,
    pub action_log: Vec<ActionLogEntry>,
    pub last_action_msg_id: Option<String>,
    /// Message id of the persistent lobby card. Updated in place on join/leave.
    pub lobby_msg_id: Option<String>,
    /// Current hand's deck variant. Set fresh by each `start_hand`.
    pub mode: DeckMode,
}

/// Why a request to the table was refused.
#[derive(Debug, Clone, Copy, PartialEq, Eq, Structural)]
pub enum GameError {
    JoinDuringHand,
    AlreadySeated,
    TableFull,
    LeaveDuringHand,
    NotSeated,
    RemoveAiDuringHand,
    NoAi,
    HandInProgress(Stage),
    TooFewPlayers,
    NotBetting,
    NotAtTable,
    NotYourTurn,
    DoneForThisHand,
    MustCall(u64),
    NothingToCall,
    NoChips,
    RaiseTooLow(u64),
    RaiseTooSmall(u64),
    NotEnoughChips,
    NoNextActor,
}

impl GameError {
    /// What the player is told.
    pub open spec fn text(self) -> Seq<char> {
        match self {
            GameError::JoinDuringHand => "一局牌正在进行中，等结束后再加入"@,
            GameError::AlreadySeated => "你已经在桌上了"@,
            GameError::TableFull => "人数已满 (12)"@,
            GameError::LeaveDuringHand => "牌局进行中，无法离桌"@,
            GameError::NotSeated => "你不在桌上"@,
            GameError::RemoveAiDuringHand => "牌局进行中，无法移除 AI"@,
            GameError::NoAi => "桌上没有 AI 玩家"@,
            GameError::HandInProgress(stage) => "已经在牌局中（"@ + stage.title()
                + "）。卡住可用 /poker reset 重置牌桌"@,
            GameError::TooFewPlayers => "至少需要 2 名带筹码的玩家"@,
            GameError::NotBetting => "当前不是下注阶段"@,
            GameError::NotAtTable => "你不在牌桌上"@,
            GameError::NotYourTurn => "还没轮到你"@,
            GameError::DoneForThisHand => "你这一局已经结束行动"@,
            GameError::MustCall(n) => "当前需要跟注 "@ + decimal(n as nat) + "，无法 check"@,
            GameError::NothingToCall => "无人下注，请使用 check"@,
            GameError::NoChips => "没有筹码可以 all-in"@,
            GameError::RaiseTooLow(n) => "加注金额必须大于当前注 "@ + decimal(n as nat),
            GameError::RaiseTooSmall(n) => "最小加注幅度为 "@ + decimal(n as nat),
            GameError::NotEnoughChips => "筹码不够，使用 all-in"@,
            GameError::NoNextActor => "内部错误：找不到下一位行动玩家"@,
        }
    }

    pub fn message(&self) -> (r: String)
        ensures
            r@ == self.text(),
    {
        match self {
            GameError::JoinDuringHand => "一局牌正在进行中，等结束后再加入".to_owned(),
            GameError::AlreadySeated => "你已经在桌上了".to_owned(),
            GameError::TableFull => "人数已满 (12)".to_owned(),
            GameError::LeaveDuringHand => "牌局进行中，无法离桌".to_owned(),
            GameError::NotSeated => "你不在桌上".to_owned(),
            GameError::RemoveAiDuringHand => "牌局进行中，无法移除 AI".to_owned(),
            GameError::NoAi => "桌上没有 AI 玩家".to_owned(),
            GameError::HandInProgress(stage) => {
                let mut s = "已经在牌局中（".to_owned();
                s.append(stage.label());
                s.append("）。卡住可用 /poker reset 重置牌桌");
                s
            },
            GameError::TooFewPlayers => "至少需要 2 名带筹码的玩家".to_owned(),
            GameError::NotBetting => "当前不是下注阶段".to_owned(),
            GameError::NotAtTable => "你不在牌桌上".to_owned(),
            GameError::NotYourTurn => "还没轮到你".to_owned(),
            GameError::DoneForThisHand => "你这一局已经结束行动".to_owned(),
            GameError::MustCall(n) => {
                let mut s = "当前需要跟注 ".to_owned();
                s.append(decimal_text(*n).as_str());
                s.append("，无法 check");
                s
            },
            GameError::NothingToCall => "无人下注，请使用 check".to_owned(),
            GameError::NoChips => "没有筹码可以 all-in".to_owned(),
            GameError::RaiseTooLow(n) => {
                let mut s = "加注金额必须大于当前注 ".to_owned();
                s.append(decimal_text(*n).as_str());
                s
            },
            GameError::RaiseTooSmall(n) => {
                let mut s = "最小加注幅度为 ".to_owned();
                s.append(decimal_text(*n).as_str());
                s
            },
            GameError::NotEnoughChips => "筹码不够，使用 all-in".to_owned(),
            GameError::NoNextActor => "内部错误：找不到下一位行动玩家".to_owned(),
        }
    }
}

} // verus!
