//! The werewolf game, the second game of the chat room: roles, the night, the
//! day, and what an AI seat is told and answers. A chat has at most one game of
//! each kind, and the two do not touch.

pub mod answers;
pub mod asked;
pub mod audit;
pub mod autoplay;
pub mod cards;
pub mod clicks;
pub mod day;
pub mod days;
pub mod decisions;
pub mod files;
pub mod laws;
pub mod model;
pub mod night;
pub mod nights;
pub mod offers;
pub mod plays;
pub mod prompts;
pub mod room;
pub mod rules;
pub mod steps;
pub mod table;
pub mod turns;
pub mod view;

pub use model::WolfGameView;
use vstd::prelude::*;
use vstd::string::*;
use crate::game::Persona;

verus! {

#[derive(Debug, Clone, Copy, PartialEq, Eq, Structural)]
pub enum Role {
    Werewolf,
    /// A wolf that may shoot when it is voted out.
    WolfKing,
    Villager,
    Seer,
    Witch,
    Hunter,
    Guard,
}

impl Role {
    pub open spec fn wolf(self) -> bool {
        self == Role::Werewolf || self == Role::WolfKing
    }

    /// On the wolves' side.
    pub fn is_wolf(self) -> (r: bool)
        ensures
            r == self.wolf(),
    {
        match self {
            Role::Werewolf | Role::WolfKing => true,
            _ => false,
        }
    }

    pub open spec fn title(self) -> Seq<char> {
        match self {
            Role::Werewolf => "狼人"@,
            Role::WolfKing => "狼王"@,
            Role::Villager => "村民"@,
            Role::Seer => "预言家"@,
            Role::Witch => "女巫"@,
            Role::Hunter => "猎人"@,
            Role::Guard => "守卫"@,
        }
    }

    pub fn label(self) -> (r: &'static str)
        ensures
            r@ == self.title(),
    {
        match self {
            Role::Werewolf => "狼人",
            Role::WolfKing => "狼王",
            Role::Villager => "村民",
            Role::Seer => "预言家",
            Role::Witch => "女巫",
            Role::Hunter => "猎人",
            Role::Guard => "守卫",
        }
    }
}

/// Where the game stands.
#[derive(Debug, Clone, Copy, PartialEq, Eq, Structural)]
pub enum WolfStage {
    Lobby,
    GuardPick,
    WolvesPick,
    SeerPick,
    WitchAct,
    DayReveal,
    LastWords,
    HunterShoot,
    BadgePass,
    SheriffNominate,
    SheriffSpeech,
    SheriffSideSpeech,
    SheriffVote,
    SheriffPickDirection,
    /// There is no sheriff: who speaks first is still to be drawn.
    DayOpen,
    DaySpeech,
    DayVote,
    Ended,
}

impl WolfStage {
    pub open spec fn title(self) -> Seq<char> {
        match self {
            WolfStage::Lobby => "大厅"@,
            WolfStage::GuardPick => "守卫行动"@,
            WolfStage::WolvesPick => "狼人行动"@,
            WolfStage::SeerPick => "预言家行动"@,
            WolfStage::WitchAct => "女巫行动"@,
            WolfStage::DayReveal => "黎明"@,
            WolfStage::LastWords => "遗言"@,
            WolfStage::HunterShoot => "开枪"@,
            WolfStage::BadgePass => "警徽流转"@,
            WolfStage::SheriffNominate => "上警"@,
            WolfStage::SheriffSpeech => "上警发言"@,
            WolfStage::SheriffSideSpeech => "警下发言"@,
            WolfStage::SheriffVote => "警长投票"@,
            WolfStage::SheriffPickDirection => "警长选方向"@,
            WolfStage::DayOpen => "白天"@,
            WolfStage::DaySpeech => "白天发言"@,
            WolfStage::DayVote => "白天投票"@,
            WolfStage::Ended => "结束"@,
        }
    }

    pub fn label(self) -> (r: &'static str)
        ensures
            r@ == self.title(),
    {
        match self {
            WolfStage::Lobby => "大厅",
            WolfStage::GuardPick => "守卫行动",
            WolfStage::WolvesPick => "狼人行动",
            WolfStage::SeerPick => "预言家行动",
            WolfStage::WitchAct => "女巫行动",
            WolfStage::DayReveal => "黎明",
            WolfStage::LastWords => "遗言",
            WolfStage::HunterShoot => "开枪",
            WolfStage::BadgePass => "警徽流转",
            WolfStage::SheriffNominate => "上警",
            WolfStage::SheriffSpeech => "上警发言",
            WolfStage::SheriffSideSpeech => "警下发言",
            WolfStage::SheriffVote => "警长投票",
            WolfStage::SheriffPickDirection => "警长选方向",
            WolfStage::DayOpen => "白天",
            WolfStage::DaySpeech => "白天发言",
            WolfStage::DayVote => "白天投票",
            WolfStage::Ended => "结束",
        }
    }
}

#[derive(Debug, Clone, Copy, PartialEq, Eq, Structural)]
pub enum DeathCause {
    WolfKill,
    Poison,
    Lynch,
    Shot,
}

impl DeathCause {
    pub open spec fn title(self) -> Seq<char> {
        match self {
            DeathCause::WolfKill => "狼刀"@,
            DeathCause::Poison => "毒杀"@,
            DeathCause::Lynch => "放逐"@,
            DeathCause::Shot => "开枪"@,
        }
    }

    pub fn label(self) -> (r: &'static str)
        ensures
            r@ == self.title(),
    {
        match self {
            DeathCause::WolfKill => "狼刀",
            DeathCause::Poison => "毒杀",
            DeathCause::Lynch => "放逐",
            DeathCause::Shot => "开枪",
        }
    }
}

#[derive(Debug, Clone, Copy, PartialEq, Eq, Structural)]
pub enum Winner {
    Good,
    Wolves,
}

/// One event of the game, public or not. Players are named by their seats.
#[derive(Debug, Clone)]
pub enum RecapEvent {
    GuardPick { day: u32, target: usize },
    WolfTarget { day: u32, target: Option<usize> },
    SeerCheck { day: u32, target: usize, is_wolf: bool },
    WitchAct { day: u32, saved: bool, poisoned: Option<usize> },
    SheriffSpeech { player: usize, text: String },
    SheriffSideSpeech { player: usize, text: String },
    DaySpeech { day: u32, player: usize, text: String },
    DayVoteCast { day: u32, voter: usize, target: Option<usize> },
    DayLynch { day: u32, target: Option<usize> },
    LastWords { day: u32, night: bool, player: usize, text: String },
    HunterShot { day: u32, shooter: usize, target: Option<usize> },
    BadgePass { day: u32, from: usize, to: Option<usize> },
    Death { day: u32, night: bool, player: usize, cause: DeathCause },
}

/// What the seer learned in one night.
#[derive(Debug, Clone, Copy, PartialEq, Eq, Structural)]
pub struct SeerCheck {
    pub day: u32,
    pub target_idx: usize,
    pub is_wolf: bool,
}

#[derive(Debug, Clone)]
pub struct WolfPlayer {
    pub open_id: String,
    pub name: String,
    pub is_ai: bool,
    pub persona: Option<Persona>,
    pub alive: bool,
    /// Dealt when the game starts.
    pub role: Option<Role>,
}

/// Players who speak one after the other.
#[derive(Debug, Clone)]
pub struct Speeches {
    /// The seats, in the order in which they speak.
    pub order: Vec<usize>,
    /// How many of them have spoken.
    pub next: usize,
    /// What they said.
    pub said: Vec<(usize, String)>,
}

#[derive(Debug, Clone)]
pub struct WolfGame {
    pub chat_id: String,
    pub players: Vec<WolfPlayer>,
    pub stage: WolfStage,
    pub game_count: u32,
    pub day: u32,
    /// Whom the guard protects tonight, and whom they protected the night before.
    pub guard_target: Option<usize>,
    pub last_guard_target: Option<usize>,
    /// Each wolf's choice: the wolf and the player to be killed.
    pub wolf_kill_votes: Vec<(usize, usize)>,
    /// What the wolves said to each other tonight.
    pub wolf_chat: Vec<(usize, String)>,
    /// The wolves whose choice stands.
    pub wolf_ready: Vec<usize>,
    pub night_victim: Option<usize>,
    pub witch_save_used: bool,
    pub witch_poison_used: bool,
    pub seer_history: Vec<SeerCheck>,
    /// Who died last night.
    pub night_deaths: Vec<usize>,
    /// Whether the deaths being dealt with are the night's, not the vote's.
    pub at_dawn: bool,
    pub last_words: Speeches,
    pub pending_hunter: Option<usize>,
    pub pending_badge: Option<usize>,
    pub sheriff_idx: Option<usize>,
    /// Whether the election of a sheriff is over.
    pub sheriff_done: bool,
    pub sheriff_nominations: Vec<(usize, bool)>,
    pub sheriff_speech: Speeches,
    pub side_speech: Speeches,
    pub sheriff_votes: Vec<(usize, Option<usize>)>,
    pub day_speech: Speeches,
    pub day_votes: Vec<(usize, Option<usize>)>,
    pub lynched: Option<usize>,
    /// What everybody has been told, line by line.
    pub event_log: Vec<String>,
    pub recap_log: Vec<RecapEvent>,
}

/// Why something cannot be done in the werewolf game.
#[derive(Debug, Clone, Copy, PartialEq, Eq, Structural)]
pub enum WolfError {
    InPlay,
    AlreadySeated,
    RoomFull,
    NotSeated,
    WrongHeadcount,
    WrongStage,
    NotYours,
    BadTarget,
    GuardedLastNight,
    Locked,
    OnlyOnePotion,
    NoSavePotion,
    NobodyToSave,
    NoPoison,
    NotYourTurn,
    AlreadyChosen,
    Unfinished,
}

impl WolfError {
    pub open spec fn text(self) -> Seq<char> {
        match self {
            WolfError::InPlay => "游戏进行中"@,
            WolfError::AlreadySeated => "已经在房间里了"@,
            WolfError::RoomFull => "房间已满"@,
            WolfError::NotSeated => "不在房间里"@,
            WolfError::WrongHeadcount => "狼人杀需要 9-12 名玩家"@,
            WolfError::WrongStage => "现在不是这个阶段"@,
            WolfError::NotYours => "这不是你的技能"@,
            WolfError::BadTarget => "目标无效"@,
            WolfError::GuardedLastNight => "不能连续两晚守同一人"@,
            WolfError::Locked => "已经锁定，不能再改"@,
            WolfError::OnlyOnePotion => "同晚不可救+毒"@,
            WolfError::NoSavePotion => "救药已用"@,
            WolfError::NobodyToSave => "今晚没人需要救"@,
            WolfError::NoPoison => "毒药已用"@,
            WolfError::NotYourTurn => "还没轮到你"@,
            WolfError::AlreadyChosen => "已经选过了"@,
            WolfError::Unfinished => "还有人没行动"@,
        }
    }

    pub fn message(self) -> (r: &'static str)
        ensures
            r@ == self.text(),
    {
        match self {
            WolfError::InPlay => "游戏进行中",
            WolfError::AlreadySeated => "已经在房间里了",
            WolfError::RoomFull => "房间已满",
            WolfError::NotSeated => "不在房间里",
            WolfError::WrongHeadcount => "狼人杀需要 9-12 名玩家",
            WolfError::WrongStage => "现在不是这个阶段",
            WolfError::NotYours => "这不是你的技能",
            WolfError::BadTarget => "目标无效",
            WolfError::GuardedLastNight => "不能连续两晚守同一人",
            WolfError::Locked => "已经锁定，不能再改",
            WolfError::OnlyOnePotion => "同晚不可救+毒",
            WolfError::NoSavePotion => "救药已用",
            WolfError::NobodyToSave => "今晚没人需要救",
            WolfError::NoPoison => "毒药已用",
            WolfError::NotYourTurn => "还没轮到你",
            WolfError::AlreadyChosen => "已经选过了",
            WolfError::Unfinished => "还有人没行动",
        }
    }
}

} // verus!
