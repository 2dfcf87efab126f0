//! What a click on one of the werewolf cards asks for, and what comes of it.

use vstd::prelude::*;
use vstd::string::*;
use crate::bot::clicks::{chat_of, click_chat};
use crate::feishu::events::{CardAction, CardActionView};
use crate::feishu::json::or_text;
use crate::text::{same_text, trim, trimmed};
use super::model::WolfGameView;
use super::{WolfError, WolfGame};

verus! {

/// A player's move. Other players are named by their ids.
#[derive(Debug)]
pub enum WolfMove {
    Guard(String),
    Kill(String),
    Say(String),
    Ready,
    Nominate(bool),
    SheriffSpeech(String),
    SideSpeech(String),
    DaySpeech(String),
    LastWords(String),
    Direction(bool),
    SheriffVote(Option<String>),
    Badge(Option<String>),
    Check(String),
    Witch(bool, Option<String>),
    Vote(Option<String>),
    Shoot(Option<String>),
}

#[verifier::ext_equal]
pub enum WolfMoveView {
    Guard(Seq<char>),
    Kill(Seq<char>),
    Say(Seq<char>),
    Ready,
    Nominate(bool),
    SheriffSpeech(Seq<char>),
    SideSpeech(Seq<char>),
    DaySpeech(Seq<char>),
    LastWords(Seq<char>),
    Direction(bool),
    SheriffVote(Option<Seq<char>>),
    Badge(Option<Seq<char>>),
    Check(Seq<char>),
    Witch(bool, Option<Seq<char>>),
    Vote(Option<Seq<char>>),
    Shoot(Option<Seq<char>>),
}

pub open spec fn id_view(id: Option<String>) -> Option<Seq<char>> {
    match id {
        Some(s) => Some(s@),
        None => None,
    }
}

impl View for WolfMove {
    type V = WolfMoveView;

    open spec fn view(&self) -> WolfMoveView {
        match *self {
            WolfMove::Guard(t) => WolfMoveView::Guard(t@),
            WolfMove::Kill(t) => WolfMoveView::Kill(t@),
            WolfMove::Say(s) => WolfMoveView::Say(s@),
            WolfMove::Ready => WolfMoveView::Ready,
            WolfMove::Nominate(b) => WolfMoveView::Nominate(b),
            WolfMove::SheriffSpeech(s) => WolfMoveView::SheriffSpeech(s@),
            WolfMove::SideSpeech(s) => WolfMoveView::SideSpeech(s@),
            WolfMove::DaySpeech(s) => WolfMoveView::DaySpeech(s@),
            WolfMove::LastWords(s) => WolfMoveView::LastWords(s@),
            WolfMove::Direction(b) => WolfMoveView::Direction(b),
            WolfMove::SheriffVote(t) => WolfMoveView::SheriffVote(id_view(t)),
            WolfMove::Badge(t) => WolfMoveView::Badge(id_view(t)),
            WolfMove::Check(t) => WolfMoveView::Check(t@),
            WolfMove::Witch(s, t) => WolfMoveView::Witch(s, id_view(t)),
            WolfMove::Vote(t) => WolfMoveView::Vote(id_view(t)),
            WolfMove::Shoot(t) => WolfMoveView::Shoot(id_view(t)),
        }
    }
}

/// What a click asks for.
#[derive(Debug)]
pub enum WolfClick {
    Nothing,
    /// The click is refused with this text.
    Refused(String),
    /// A move, in the chat with this id.
    Move(WolfMove, String),
}

#[verifier::ext_equal]
pub enum WolfClickView {
    Nothing,
    Refused(Seq<char>),
    Move(WolfMoveView, Seq<char>),
}

impl View for WolfClick {
    type V = WolfClickView;

    open spec fn view(&self) -> WolfClickView {
        match *self {
            WolfClick::Nothing => WolfClickView::Nothing,
            WolfClick::Refused(s) => WolfClickView::Refused(s@),
            WolfClick::Move(m, chat) => WolfClickView::Move(m@, chat@),
        }
    }
}

/// Whom the button names.
pub open spec fn target_of(action: CardActionView) -> Option<Seq<char>> {
    action.value.get_text("target"@)
}

/// What was typed into the form's speech field.
pub open spec fn speech_of(action: CardActionView) -> Seq<char> {
    or_text(action.form_value.get_text("speech"@), ""@)
}

pub open spec fn message_of(action: CardActionView) -> Seq<char> {
    trimmed(or_text(action.form_value.get_text("message"@), ""@))
}

/// The move that a button stands for, or the text that the click is refused
/// with.
pub open spec fn move_of(id: Seq<char>, action: CardActionView) -> Option<Result<WolfMoveView, Seq<char>>> {
    let no_target = Some(Err("目标无效"@));
    if id == "wolf_guard_pick"@ {
        match target_of(action) {
            Some(t) => Some(Ok(WolfMoveView::Guard(t))),
            None => no_target,
        }
    } else if id == "wolf_kill"@ {
        match target_of(action) {
            Some(t) => Some(Ok(WolfMoveView::Kill(t))),
            None => no_target,
        }
    } else if id == "wolf_chat_send"@ {
        if message_of(action).len() == 0 {
            Some(Err("发言为空"@))
        } else {
            Some(Ok(WolfMoveView::Say(message_of(action))))
        }
    } else if id == "wolf_ready"@ {
        Some(Ok(WolfMoveView::Ready))
    } else if id == "wolf_sheriff_run"@ {
        Some(Ok(WolfMoveView::Nominate(true)))
    } else if id == "wolf_sheriff_skip"@ {
        Some(Ok(WolfMoveView::Nominate(false)))
    } else if id == "wolf_sheriff_speech_submit"@ {
        Some(Ok(WolfMoveView::SheriffSpeech(speech_of(action))))
    } else if id == "wolf_sheriff_speech_skip"@ {
        Some(Ok(WolfMoveView::SheriffSpeech(""@)))
    } else if id == "wolf_day_speech_submit"@ {
        Some(Ok(WolfMoveView::DaySpeech(speech_of(action))))
    } else if id == "wolf_day_speech_skip"@ {
        Some(Ok(WolfMoveView::DaySpeech(""@)))
    } else if id == "wolf_sheriff_side_submit"@ {
        Some(Ok(WolfMoveView::SideSpeech(speech_of(action))))
    } else if id == "wolf_sheriff_side_skip"@ {
        Some(Ok(WolfMoveView::SideSpeech(""@)))
    } else if id == "wolf_last_words_submit"@ {
        Some(Ok(WolfMoveView::LastWords(speech_of(action))))
    } else if id == "wolf_last_words_skip"@ {
        Some(Ok(WolfMoveView::LastWords(""@)))
    } else {
        choice_of(id, action)
    }
}

/// The moves that a button stands for alone, as far as they are not speeches.
pub open spec fn choice_of(id: Seq<char>, action: CardActionView) -> Option<Result<WolfMoveView, Seq<char>>> {
    let no_target = Some(Err("目标无效"@));
    if id == "wolf_sheriff_dir_up"@ {
        Some(Ok(WolfMoveView::Direction(true)))
    } else if id == "wolf_sheriff_dir_down"@ {
        Some(Ok(WolfMoveView::Direction(false)))
    } else if id == "wolf_sheriff_vote"@ {
        match target_of(action) {
            Some(t) => Some(Ok(WolfMoveView::SheriffVote(Some(t)))),
            None => no_target,
        }
    } else if id == "wolf_sheriff_vote_abstain"@ {
        Some(Ok(WolfMoveView::SheriffVote(None)))
    } else if id == "wolf_badge_pass"@ {
        match target_of(action) {
            Some(t) => Some(Ok(WolfMoveView::Badge(Some(t)))),
            None => no_target,
        }
    } else if id == "wolf_badge_destroy"@ {
        Some(Ok(WolfMoveView::Badge(None)))
    } else if id == "wolf_seer_check"@ {
        match target_of(action) {
            Some(t) => Some(Ok(WolfMoveView::Check(t))),
            None => no_target,
        }
    } else if id == "wolf_witch_save"@ {
        Some(Ok(WolfMoveView::Witch(true, None)))
    } else if id == "wolf_witch_skip"@ {
        Some(Ok(WolfMoveView::Witch(false, None)))
    } else if id == "wolf_witch_poison"@ {
        match target_of(action) {
            Some(t) => Some(Ok(WolfMoveView::Witch(false, Some(t)))),
            None => no_target,
        }
    } else if id == "wolf_vote"@ {
        match target_of(action) {
            Some(t) => Some(Ok(WolfMoveView::Vote(Some(t)))),
            None => no_target,
        }
    } else if id == "wolf_vote_abstain"@ {
        Some(Ok(WolfMoveView::Vote(None)))
    } else if id == "wolf_hunter_shoot"@ {
        match target_of(action) {
            Some(t) => Some(Ok(WolfMoveView::Shoot(Some(t)))),
            None => no_target,
        }
    } else if id == "wolf_hunter_skip"@ {
        Some(Ok(WolfMoveView::Shoot(None)))
    } else {
        None
    }
}

/// What a click asks for, given the chat's game if it has one: buttons of an
/// earlier game and of somebody else's card are refused.
pub open spec fn wolf_click_of(id: Seq<char>, action: CardActionView, game: Option<WolfGameView>) -> WolfClickView {
    let actor = or_text(action.value.get_text("actor"@), ""@);
    let count = match action.value.get_number("game"@) {
        Some(n) => n,
        None => 0,
    };
    if game is Some && count != 0 && count % 0x1_0000_0000 != game->0.game_count {
        WolfClickView::Refused("这是上一局的按钮"@)
    } else if actor.len() > 0 && action.open_id != actor {
        WolfClickView::Refused("这张卡片不是给你的"@)
    } else {
        match move_of(id, action) {
            None => WolfClickView::Nothing,
            Some(Err(text)) => WolfClickView::Refused(text),
            Some(Ok(m)) => if game is None {
                WolfClickView::Refused("游戏不存在"@)
            } else {
                WolfClickView::Move(m, chat_of(action))
            },
        }
    }
}

// ---- the same, read ----

/// What reading a button gives.
enum Found {
    Unknown,
    Wrong(&'static str),
    Found(WolfMove),
}

spec fn found_view(f: Found) -> Option<Result<WolfMoveView, Seq<char>>> {
    match f {
        Found::Unknown => None,
        Found::Wrong(s) => Some(Err(s@)),
        Found::Found(m) => Some(Ok(m@)),
    }
}

fn read_target(action: &CardAction) -> (r: Option<String>)
    ensures
        id_view(r) == target_of(action@),
{
    match action.value.get_str("target") {
        Some(s) => Some(s.to_owned()),
        None => None,
    }
}

fn read_speech(action: &CardAction) -> (r: String)
    ensures
        r@ == speech_of(action@),
{
    match action.form_value.get_str("speech") {
        Some(s) => s.to_owned(),
        None => "".to_owned(),
    }
}

fn read_choice(id: &str, action: &CardAction) -> (r: Found)
    ensures
        found_view(r) == choice_of(id@, action@),
{
    if same_text(id, "wolf_sheriff_dir_up") {
        Found::Found(WolfMove::Direction(true))
    } else if same_text(id, "wolf_sheriff_dir_down") {
        Found::Found(WolfMove::Direction(false))
    } else if same_text(id, "wolf_sheriff_vote") {
        match read_target(action) {
            Some(t) => Found::Found(WolfMove::SheriffVote(Some(t))),
            None => Found::Wrong("目标无效"),
        }
    } else if same_text(id, "wolf_sheriff_vote_abstain") {
        Found::Found(WolfMove::SheriffVote(None))
    } else if same_text(id, "wolf_badge_pass") {
        match read_target(action) {
            Some(t) => Found::Found(WolfMove::Badge(Some(t))),
            None => Found::Wrong("目标无效"),
        }
    } else if same_text(id, "wolf_badge_destroy") {
        Found::Found(WolfMove::Badge(None))
    } else if same_text(id, "wolf_seer_check") {
        match read_target(action) {
            Some(t) => Found::Found(WolfMove::Check(t)),
            None => Found::Wrong("目标无效"),
        }
    } else if same_text(id, "wolf_witch_save") {
        Found::Found(WolfMove::Witch(true, None))
    } else if same_text(id, "wolf_witch_skip") {
        Found::Found(WolfMove::Witch(false, None))
    } else if same_text(id, "wolf_witch_poison") {
        match read_target(action) {
            Some(t) => Found::Found(WolfMove::Witch(false, Some(t))),
            None => Found::Wrong("目标无效"),
        }
    } else if same_text(id, "wolf_vote") {
        match read_target(action) {
            Some(t) => Found::Found(WolfMove::Vote(Some(t))),
            None => Found::Wrong("目标无效"),
        }
    } else if same_text(id, "wolf_vote_abstain") {
        Found::Found(WolfMove::Vote(None))
    } else if same_text(id, "wolf_hunter_shoot") {
        match read_target(action) {
            Some(t) => Found::Found(WolfMove::Shoot(Some(t))),
            None => Found::Wrong("目标无效"),
        }
    } else if same_text(id, "wolf_hunter_skip") {
        Found::Found(WolfMove::Shoot(None))
    } else {
        Found::Unknown
    }
}

fn read_move(id: &str, action: &CardAction) -> (r: Found)
    ensures
        found_view(r) == move_of(id@, action@),
{
    if same_text(id, "wolf_guard_pick") {
        match read_target(action) {
            Some(t) => Found::Found(WolfMove::Guard(t)),
            None => Found::Wrong("目标无效"),
        }
    } else if same_text(id, "wolf_kill") {
        match read_target(action) {
            Some(t) => Found::Found(WolfMove::Kill(t)),
            None => Found::Wrong("目标无效"),
        }
    } else if same_text(id, "wolf_chat_send") {
        let raw = trim(
            match action.form_value.get_str("message") {
                Some(s) => s,
                None => "",
            },
        );
        if raw.unicode_len() == 0 {
            Found::Wrong("发言为空")
        } else {
            Found::Found(WolfMove::Say(raw.to_owned()))
        }
    } else if same_text(id, "wolf_ready") {
        Found::Found(WolfMove::Ready)
    } else if same_text(id, "wolf_sheriff_run") {
        Found::Found(WolfMove::Nominate(true))
    } else if same_text(id, "wolf_sheriff_skip") {
        Found::Found(WolfMove::Nominate(false))
    } else if same_text(id, "wolf_sheriff_speech_submit") {
        Found::Found(WolfMove::SheriffSpeech(read_speech(action)))
    } else if same_text(id, "wolf_sheriff_speech_skip") {
        Found::Found(WolfMove::SheriffSpeech("".to_owned()))
    } else if same_text(id, "wolf_day_speech_submit") {
        Found::Found(WolfMove::DaySpeech(read_speech(action)))
    } else if same_text(id, "wolf_day_speech_skip") {
        Found::Found(WolfMove::DaySpeech("".to_owned()))
    } else if same_text(id, "wolf_sheriff_side_submit") {
        Found::Found(WolfMove::SideSpeech(read_speech(action)))
    } else if same_text(id, "wolf_sheriff_side_skip") {
        Found::Found(WolfMove::SideSpeech("".to_owned()))
    } else if same_text(id, "wolf_last_words_submit") {
        Found::Found(WolfMove::LastWords(read_speech(action)))
    } else if same_text(id, "wolf_last_words_skip") {
        Found::Found(WolfMove::LastWords("".to_owned()))
    } else {
        read_choice(id, action)
    }
}

/// What a click asks for, given the chat's game if it has one.
pub fn read_wolf_click(id: &str, action: &CardAction, game: Option<&WolfGame>) -> (r: WolfClick)
    ensures
        r@ == wolf_click_of(
            id@,
            action@,
            match game {
                Some(g) => Some(g@),
                None => None,
            },
        ),
{
    let count: u64 = match action.value.get_u64("game") {
        Some(n) => n,
        None => 0,
    };
    assert(count as u32 == count % 0x1_0000_0000) by (bit_vector);
    if let Some(g) = game {
        if count != 0 && count as u32 != g.game_count {
            return WolfClick::Refused("这是上一局的按钮".to_owned());
        }
    }
    let actor = match action.value.get_str("actor") {
        Some(s) => s,
        None => "",
    };
    if actor.unicode_len() > 0 && !same_text(action.open_id.as_str(), actor) {
        return WolfClick::Refused("这张卡片不是给你的".to_owned());
    }
    match read_move(id, action) {
        Found::Unknown => WolfClick::Nothing,
        Found::Wrong(s) => WolfClick::Refused(s.to_owned()),
        Found::Found(m) => if game.is_none() {
            WolfClick::Refused("游戏不存在".to_owned())
        } else {
            WolfClick::Move(m, click_chat(action))
        },
    }
}

// ---- moves ----

/// What a move found out: whom the seer looked at is a wolf or not, who was
/// shot, who has the badge.
#[derive(Debug, Clone, Copy, PartialEq, Eq, Structural)]
pub enum Finding {
    Nothing,
    Wolf(bool),
    Shot(Option<usize>),
    Badge(Option<usize>),
}

pub open spec fn plain(r: Result<WolfGameView, WolfError>) -> Result<(WolfGameView, Finding), WolfError> {
    match r {
        Ok(g) => Ok((g, Finding::Nothing)),
        Err(e) => Err(e),
    }
}

impl WolfGameView {
    /// What a move of the player with this id leads to.
    #[verifier::opaque]
    pub open spec fn moved(self, id: Seq<char>, m: WolfMoveView) -> Result<(WolfGameView, Finding), WolfError> {
        match m {
            WolfMoveView::Guard(t) => plain(self.guard_result(id, t)),
            WolfMoveView::Kill(t) => plain(self.wolf_pick_result(id, t)),
            WolfMoveView::Say(s) => plain(self.wolf_say_result(id, s)),
            WolfMoveView::Ready => plain(self.wolf_ready_result(id)),
            WolfMoveView::Nominate(b) => plain(self.nominate_result(id, b)),
            WolfMoveView::SheriffSpeech(s) => plain(self.sheriff_speech_result(id, s)),
            WolfMoveView::SideSpeech(s) => plain(self.side_speech_result(id, s)),
            WolfMoveView::DaySpeech(s) => plain(self.day_speech_result(id, s)),
            WolfMoveView::LastWords(s) => plain(self.last_words_result(id, s)),
            WolfMoveView::Direction(b) => plain(self.direction_result(id, b)),
            WolfMoveView::SheriffVote(t) => plain(self.sheriff_vote_result(id, t)),
            WolfMoveView::Badge(t) => match self.badge_result(id, t) {
                Ok((g, b)) => Ok((g, Finding::Badge(b))),
                Err(e) => Err(e),
            },
            WolfMoveView::Check(t) => match self.seer_result(id, t) {
                Ok((g, w)) => Ok((g, Finding::Wolf(w))),
                Err(e) => Err(e),
            },
            WolfMoveView::Witch(s, t) => plain(self.witch_result(id, s, t)),
            WolfMoveView::Vote(t) => plain(self.vote_result(id, t)),
            WolfMoveView::Shoot(t) => match self.hunter_result(id, t) {
                Ok((g, s)) => Ok((g, Finding::Shot(s))),
                Err(e) => Err(e),
            },
        }
    }
}

fn as_id(id: &Option<String>) -> (r: Option<&str>)
    ensures
        match r {
            Some(s) => id_view(*id) == Some(s@),
            None => id_view(*id) is None,
        },
{
    match id {
        Some(s) => Some(s.as_str()),
        None => None,
    }
}

fn nothing(r: Result<(), WolfError>) -> (f: Result<Finding, WolfError>)
    ensures
        f == (match r {
            Ok(_) => Ok(Finding::Nothing),
            Err(e) => Err(e),
        }),
{
    match r {
        Ok(_) => Ok(Finding::Nothing),
        Err(e) => Err(e),
    }
}

impl WolfGame {
    /// What a role does at night.
    fn night_move(&mut self, id: &str, m: WolfMove) -> (r: Result<Finding, WolfError>)
        requires
            old(self)@.wf(),
            m is Guard || m is Kill || m is Check || m is Witch,
        ensures
            final(self)@.wf(),
            match old(self)@.moved(id@, m@) {
                Err(e) => r == Err::<Finding, WolfError>(e) && final(self)@ == old(self)@,
                Ok((g, f)) => r == Ok::<Finding, WolfError>(f) && final(self)@ == g,
            },
    {
        proof {
            reveal(WolfGameView::moved);
        }
        match m {
            WolfMove::Guard(t) => nothing(self.guard_pick(id, t.as_str())),
            WolfMove::Kill(t) => nothing(self.wolf_pick(id, t.as_str())),
            WolfMove::Check(t) => match self.seer_check(id, t.as_str()) {
                Ok(w) => Ok(Finding::Wolf(w)),
                Err(e) => Err(e),
            },
            WolfMove::Witch(s, t) => nothing(self.witch_act(id, s, as_id(&t))),
            _ => Err(WolfError::WrongStage),
        }
    }

    /// What takes no more than a word.
    fn word_move(&mut self, id: &str, m: WolfMove) -> (r: Result<Finding, WolfError>)
        requires
            old(self)@.wf(),
            m is Say || m is Ready || m is Nominate || m is Direction,
        ensures
            final(self)@.wf(),
            match old(self)@.moved(id@, m@) {
                Err(e) => r == Err::<Finding, WolfError>(e) && final(self)@ == old(self)@,
                Ok((g, f)) => r == Ok::<Finding, WolfError>(f) && final(self)@ == g,
            },
    {
        proof {
            reveal(WolfGameView::moved);
        }
        match m {
            WolfMove::Say(s) => nothing(self.wolf_say(id, s)),
            WolfMove::Ready => nothing(self.wolf_mark_ready(id)),
            WolfMove::Nominate(b) => nothing(self.nominate_sheriff(id, b)),
            WolfMove::Direction(b) => nothing(self.pick_sheriff_direction(id, b)),
            _ => Err(WolfError::WrongStage),
        }
    }

    /// A speech.
    fn speech_move(&mut self, id: &str, m: WolfMove) -> (r: Result<Finding, WolfError>)
        requires
            old(self)@.wf(),
            m is SheriffSpeech || m is SideSpeech || m is DaySpeech || m is LastWords,
        ensures
            final(self)@.wf(),
            match old(self)@.moved(id@, m@) {
                Err(e) => r == Err::<Finding, WolfError>(e) && final(self)@ == old(self)@,
                Ok((g, f)) => r == Ok::<Finding, WolfError>(f) && final(self)@ == g,
            },
    {
        proof {
            reveal(WolfGameView::moved);
        }
        match m {
            WolfMove::SheriffSpeech(s) => nothing(self.submit_sheriff_speech(id, s)),
            WolfMove::SideSpeech(s) => nothing(self.submit_sheriff_side_speech(id, s)),
            WolfMove::DaySpeech(s) => nothing(self.submit_day_speech(id, s)),
            WolfMove::LastWords(s) => nothing(self.submit_last_words(id, s)),
            _ => Err(WolfError::WrongStage),
        }
    }

    /// A choice of a player or nobody.
    fn choice_move(&mut self, id: &str, m: WolfMove) -> (r: Result<Finding, WolfError>)
        requires
            old(self)@.wf(),
            m is SheriffVote || m is Vote || m is Badge || m is Shoot,
        ensures
            final(self)@.wf(),
            match old(self)@.moved(id@, m@) {
                Err(e) => r == Err::<Finding, WolfError>(e) && final(self)@ == old(self)@,
                Ok((g, f)) => r == Ok::<Finding, WolfError>(f) && final(self)@ == g,
            },
    {
        proof {
            reveal(WolfGameView::moved);
        }
        match m {
            WolfMove::SheriffVote(t) => nothing(self.cast_sheriff_vote(id, as_id(&t))),
            WolfMove::Vote(t) => nothing(self.cast_vote(id, as_id(&t))),
            WolfMove::Badge(t) => match self.transfer_badge(id, as_id(&t)) {
                Ok(b) => Ok(Finding::Badge(b)),
                Err(e) => Err(e),
            },
            WolfMove::Shoot(t) => match self.hunter_shoot(id, as_id(&t)) {
                Ok(s) => Ok(Finding::Shot(s)),
                Err(e) => Err(e),
            },
            _ => Err(WolfError::WrongStage),
        }
    }

    /// Let the player with this id make a move.
    pub fn make_move(&mut self, id: &str, m: WolfMove) -> (r: Result<Finding, WolfError>)
        requires
            old(self)@.wf(),
        ensures
            final(self)@.wf(),
            match old(self)@.moved(id@, m@) {
                Err(e) => r == Err::<Finding, WolfError>(e) && final(self)@ == old(self)@,
                Ok((g, f)) => r == Ok::<Finding, WolfError>(f) && final(self)@ == g,
            },
    {
        match m {
            WolfMove::Guard(_) | WolfMove::Kill(_) | WolfMove::Check(_) | WolfMove::Witch(_, _) => {
                self.night_move(id, m)
            },
            WolfMove::Say(_) | WolfMove::Ready | WolfMove::Nominate(_) | WolfMove::Direction(_) => {
                self.word_move(id, m)
            },
            WolfMove::SheriffSpeech(_)
            | WolfMove::SideSpeech(_)
            | WolfMove::DaySpeech(_)
            | WolfMove::LastWords(_) => self.speech_move(id, m),
            WolfMove::SheriffVote(_) | WolfMove::Vote(_) | WolfMove::Badge(_) | WolfMove::Shoot(_) => {
                self.choice_move(id, m)
            },
        }
    }
}

/// What the player is told when their move has been made; nothing where the
/// cards that follow say it.
pub open spec fn move_toast(m: WolfMoveView) -> Option<Seq<char>> {
    match m {
        WolfMoveView::Guard(_) => Some("已守护"@),
        WolfMoveView::Kill(_) => Some("已选目标 · 改主意可再点"@),
        WolfMoveView::Say(_) => None,
        WolfMoveView::Ready => Some("已就绪 · 等队友"@),
        WolfMoveView::Nominate(b) => Some(if b { "已上警"@ } else { "未上警"@ }),
        WolfMoveView::SheriffSpeech(_) => Some("发言已提交"@),
        WolfMoveView::SideSpeech(_) => Some("发言已提交"@),
        WolfMoveView::DaySpeech(_) => Some("发言已提交"@),
        WolfMoveView::LastWords(_) => Some("遗言已记录"@),
        WolfMoveView::Direction(b) => Some(if b { "已选警上"@ } else { "已选警下"@ }),
        WolfMoveView::SheriffVote(_) => Some("已投票"@),
        WolfMoveView::Badge(_) => None,
        WolfMoveView::Check(_) => None,
        WolfMoveView::Witch(_, _) => Some("已确认"@),
        WolfMoveView::Vote(t) => Some(if t is Some { "已投票"@ } else { "已弃权"@ }),
        WolfMoveView::Shoot(_) => None,
    }
}

/// What the player is told when their move has been made.
pub fn toast_for(m: &WolfMove) -> (r: Option<&'static str>)
    ensures
        match r {
            Some(s) => move_toast(m@) == Some(s@),
            None => move_toast(m@) is None,
        },
{
    match m {
        WolfMove::Guard(_) => Some("已守护"),
        WolfMove::Kill(_) => Some("已选目标 · 改主意可再点"),
        WolfMove::Ready => Some("已就绪 · 等队友"),
        WolfMove::Nominate(b) => Some(if *b { "已上警" } else { "未上警" }),
        WolfMove::SheriffSpeech(_) | WolfMove::SideSpeech(_) | WolfMove::DaySpeech(_) => Some("发言已提交"),
        WolfMove::LastWords(_) => Some("遗言已记录"),
        WolfMove::Direction(b) => Some(if *b { "已选警上" } else { "已选警下" }),
        WolfMove::SheriffVote(_) => Some("已投票"),
        WolfMove::Witch(_, _) => Some("已确认"),
        WolfMove::Vote(t) => Some(if t.is_some() { "已投票" } else { "已弃权" }),
        WolfMove::Say(_) | WolfMove::Badge(_) | WolfMove::Check(_) | WolfMove::Shoot(_) => None,
    }
}

/// What follows a move that has been made.
#[derive(Debug, Clone, Copy, PartialEq, Eq, Structural)]
pub struct AfterMove {
    /// The people in the pack are shown how things stand now.
    pub refresh_pack: bool,
    /// The game is taken on.
    pub advance: bool,
}

/// What is said, chosen and settled in the pack is shown to the pack. Every move
/// takes the game on, but for mere words to the pack.
pub open spec fn move_follow_up(m: WolfMoveView) -> AfterMove {
    AfterMove { refresh_pack: m is Say || m is Kill || m is Ready, advance: !(m is Say) }
}

/// What follows a move that has been made.
pub fn after_move(m: &WolfMove) -> (r: AfterMove)
    ensures
        r == move_follow_up(m@),
{
    match m {
        WolfMove::Say(_) => AfterMove { refresh_pack: true, advance: false },
        WolfMove::Kill(_) | WolfMove::Ready => AfterMove { refresh_pack: true, advance: true },
        _ => AfterMove { refresh_pack: false, advance: true },
    }
}

/// A click on somebody else's card, or on a card of an earlier game, makes no
/// move.
pub proof fn only_ones_own_card_moves(id: Seq<char>, action: CardActionView, g: WolfGameView, m: WolfMoveView, chat: Seq<char>)
    requires
        or_text(action.value.get_text("actor"@), ""@).len() > 0,
        wolf_click_of(id, action, Some(g)) == WolfClickView::Move(m, chat),
    ensures
        action.open_id == or_text(action.value.get_text("actor"@), ""@),
        match action.value.get_number("game"@) {
            Some(n) => n == 0 || n % 0x1_0000_0000 == g.game_count,
            None => true,
        },
{
}

} // verus!
