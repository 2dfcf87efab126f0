//! What is made of the model's answer for an AI player of the werewolf game.
//!
//! In each of these the answer is what was read, or nothing where the model
//! could not be asked or what it sent could not be read.

use vstd::prelude::*;
use vstd::string::*;
use crate::text::{lowercase, lowered, same_text, shorten, shortened, trim, trimmed};
use super::model::{living, said_view, WolfGameView, WolfPlayerView};
use super::prompts::{guard_targets, guardable, other_players, others, prey, wolf_at, wolf_targets};
use super::view::{PublicModel, PublicView};
use super::{Role, WolfGame};

verus! {

/// A wolf's answer.
#[derive(Debug, Clone)]
pub struct WolfPickReply {
    pub target_idx: usize,
    pub chat: Option<String>,
}

/// A wolf's decision: whom to kill, and a word to the pack.
#[derive(Debug, Clone)]
pub struct WolfPickDecision {
    pub target_idx: usize,
    pub chat: Option<String>,
}

/// The witch's answer.
#[derive(Debug, Clone)]
pub struct WitchReply {
    pub action: String,
    pub poison_target_idx: Option<usize>,
}

#[derive(Debug, Clone, Copy, PartialEq, Eq, Structural)]
pub enum WitchDecision {
    Save,
    Poison(usize),
    Skip,
}

#[derive(Debug, Clone, Copy, PartialEq, Eq, Structural)]
pub struct VoteDecision {
    pub target_idx: Option<usize>,
}

/// What a dying hunter or wolf king answers.
#[derive(Debug, Clone)]
pub struct DyingReply {
    pub speech: Option<String>,
    pub target_idx: Option<i64>,
}

/// Their last words, and whom they take along.
#[derive(Debug, Clone)]
pub struct DyingShooterDecision {
    pub speech: String,
    pub target: Option<usize>,
}

/// Whether the seat is among the candidates.
pub open spec fn listed(list: Seq<(usize, Seq<char>)>, seat: int) -> bool {
    exists|k: int| 0 <= k < list.len() && (#[trigger] list[k]).0 == seat
}

fn is_listed(list: &Vec<(usize, String)>, seat: usize) -> (r: bool)
    ensures
        r == listed(said_view(list@), seat as int),
{
    let mut i: usize = 0;
    while i < list.len()
        invariant
            i <= list@.len(),
            forall|k: int| 0 <= k < i ==> (#[trigger] said_view(list@)[k]).0 != seat,
        decreases list@.len() - i,
    {
        assert(said_view(list@)[i as int].0 == list@[i as int].0);
        if list[i].0 == seat {
            return true;
        }
        i = i + 1;
    }
    false
}

/// The candidate that a number names; a negative one names nobody.
pub open spec fn named(list: Seq<(usize, Seq<char>)>, answer: Option<i64>) -> Option<usize> {
    match answer {
        Some(t) => if t >= 0 && listed(list, t as int) { Some(t as usize) } else { None },
        None => None,
    }
}

fn read_named(list: &Vec<(usize, String)>, answer: Option<i64>) -> (r: Option<usize>)
    ensures
        r == named(said_view(list@), answer),
{
    let t: i64 = match answer {
        Some(t) => t,
        None => {
            return None;
        },
    };
    if t < 0 {
        return None;
    }
    let mut i: usize = 0;
    while i < list.len()
        invariant
            t >= 0,
            answer == Some(t),
            i <= list@.len(),
            forall|k: int| 0 <= k < i ==> (#[trigger] said_view(list@)[k]).0 != t,
        decreases list@.len() - i,
    {
        assert(said_view(list@)[i as int].0 == list@[i as int].0);
        if list[i].0 as u64 == t as u64 {
            return Some(list[i].0);
        }
        i = i + 1;
    }
    None
}

/// A text without the white space around it, cut to `n` characters; nothing
/// where that leaves nothing.
pub open spec fn clipped(s: Option<Seq<char>>, n: nat) -> Option<Seq<char>> {
    match s {
        Some(t) => if trimmed(t).len() == 0 { None } else { Some(shortened(trimmed(t), n)) },
        None => None,
    }
}

pub open spec fn option_view(s: Option<String>) -> Option<Seq<char>> {
    match s {
        Some(t) => Some(t@),
        None => None,
    }
}

fn clip(s: &Option<String>, n: usize) -> (r: Option<String>)
    ensures
        option_view(r) == clipped(option_view(*s), n as nat),
{
    match s {
        Some(t) => {
            let t = trim(t.as_str());
            if t.unicode_len() == 0 {
                None
            } else {
                Some(shorten(t, n))
            }
        },
        None => None,
    }
}

// ---- the night ----

/// The wolf's target: the one named if that is legal, otherwise the first legal
/// one.
pub open spec fn wolf_target(list: Seq<(usize, Seq<char>)>, answer: Option<usize>) -> usize {
    if list.len() == 0 {
        0
    } else {
        match answer {
            Some(t) => if listed(list, t as int) { t } else { list[0].0 },
            None => list[0].0,
        }
    }
}

/// A wolf's decision. Words to the pack are for packs with people in them.
pub fn wolf_pick(v: &PublicView, game: &WolfGame, speak_enabled: bool, reply: &Option<WolfPickReply>) -> (r: WolfPickDecision)
    ensures
        r.target_idx == wolf_target(
            prey(v@.players, game@),
            match *reply {
                Some(a) => Some(a.target_idx),
                None => None,
            },
        ),
        option_view(r.chat) == (match *reply {
            Some(a) => if speak_enabled && prey(v@.players, game@).len() > 0 {
                clipped(option_view(a.chat), 60)
            } else {
                None
            },
            None => None,
        }),
{
    let list = wolf_targets(v, game);
    assert(said_view(list@).len() == list@.len());
    if list.len() == 0 {
        return WolfPickDecision { target_idx: 0, chat: None };
    }
    assert(said_view(list@)[0].0 == list@[0].0);
    match reply {
        Some(a) => {
            let target_idx = if is_listed(&list, a.target_idx) { a.target_idx } else { list[0].0 };
            let chat = if speak_enabled { clip(&a.chat, 60) } else { None };
            WolfPickDecision { target_idx, chat }
        },
        None => WolfPickDecision { target_idx: list[0].0, chat: None },
    }
}

/// Whether the name is among the checked ones.
pub open spec fn checked(log: Seq<(u32, Seq<char>, bool)>, name: Seq<char>) -> bool {
    exists|k: int| 0 <= k < log.len() && (#[trigger] log[k]).1 == name
}

fn is_checked(v: &PublicView, name: &str) -> (r: bool)
    ensures
        r == checked(v@.seer_log, name@),
{
    let mut i: usize = 0;
    while i < v.seer_log.len()
        invariant
            i <= v.seer_log@.len(),
            forall|k: int| 0 <= k < i ==> (#[trigger] v@.seer_log[k]).1 != name@,
        decreases v.seer_log@.len() - i,
    {
        assert(v@.seer_log[i as int].1 == v.seer_log@[i as int].1@);
        if same_text(v.seer_log[i].1.as_str(), name) {
            return true;
        }
        i = i + 1;
    }
    false
}

/// The first candidate from `from` on who has not been checked.
pub open spec fn unchecked(list: Seq<(usize, Seq<char>)>, log: Seq<(u32, Seq<char>, bool)>, from: int) -> Option<usize>
    decreases list.len() - from,
{
    if from < 0 || from >= list.len() {
        None
    } else if !checked(log, list[from].1) {
        Some(list[from].0)
    } else {
        unchecked(list, log, from + 1)
    }
}

/// Whom the seer checks without an answer that helps: somebody new if possible.
pub open spec fn seer_fallback(v: PublicModel) -> usize {
    let list = others(v.players, v.me_idx);
    match unchecked(list, v.seer_log, 0) {
        Some(i) => i,
        None => list[0].0,
    }
}

/// Whom the seer checks: the one named if that is legal.
pub open spec fn seer_choice(v: PublicModel, reply: Option<usize>) -> usize {
    if others(v.players, v.me_idx).len() == 0 {
        0
    } else {
        match reply {
            Some(t) => if listed(others(v.players, v.me_idx), t as int) { t } else { seer_fallback(v) },
            None => seer_fallback(v),
        }
    }
}

/// Whom the seer checks.
pub fn seer_pick(v: &PublicView, reply: Option<usize>) -> (r: usize)
    ensures
        r == seer_choice(v@, reply),
{
    let list = other_players(v);
    let ghost all = said_view(list@);
    assert(all.len() == list@.len());
    if list.len() == 0 {
        return 0;
    }
    if let Some(t) = reply {
        if is_listed(&list, t) {
            return t;
        }
    }
    let mut i: usize = 0;
    while i < list.len()
        invariant
            all == said_view(list@),
            all == others(v@.players, v@.me_idx),
            all.len() > 0,
            reply is Some ==> !listed(all, reply->0 as int),
            i <= list@.len() == all.len(),
            unchecked(all, v@.seer_log, 0) == unchecked(all, v@.seer_log, i as int),
        decreases list@.len() - i,
    {
        assert(all[i as int] == (list@[i as int].0, list@[i as int].1@));
        if !is_checked(v, list[i].1.as_str()) {
            return list[i].0;
        }
        i = i + 1;
    }
    assert(all[0].0 == list@[0].0);
    list[0].0
}

/// What the witch does: no potion is used twice, nobody is saved who was not
/// struck, and poison goes to a living other.
pub open spec fn witch_choice(v: PublicModel, g: WolfGameView, action: Seq<char>, poison: Option<usize>) -> WitchDecision {
    if lowered(action) == "save"@ {
        if !g.witch_save_used && g.night_victim is Some { WitchDecision::Save } else { WitchDecision::Skip }
    } else if lowered(action) == "poison"@ {
        match poison {
            Some(i) => if !g.witch_poison_used && listed(others(v.players, v.me_idx), i as int) {
                WitchDecision::Poison(i)
            } else {
                WitchDecision::Skip
            },
            None => WitchDecision::Skip,
        }
    } else {
        WitchDecision::Skip
    }
}

/// What the witch does, the answer being nothing where there was none.
pub fn witch_decide(v: &PublicView, game: &WolfGame, reply: &Option<WitchReply>) -> (r: WitchDecision)
    ensures
        r == (match *reply {
            Some(a) => witch_choice(v@, game@, a.action@, a.poison_target_idx),
            None => WitchDecision::Skip,
        }),
{
    let a = match reply {
        Some(a) => a,
        None => {
            return WitchDecision::Skip;
        },
    };
    let action = lowercase(a.action.as_str());
    if same_text(action.as_str(), "save") {
        if !game.witch_save_used && game.night_victim.is_some() {
            WitchDecision::Save
        } else {
            WitchDecision::Skip
        }
    } else if same_text(action.as_str(), "poison") {
        if game.witch_poison_used {
            return WitchDecision::Skip;
        }
        let i: usize = match a.poison_target_idx {
            Some(i) => i,
            None => {
                return WitchDecision::Skip;
            },
        };
        let list = other_players(v);
        if is_listed(&list, i) {
            WitchDecision::Poison(i)
        } else {
            WitchDecision::Skip
        }
    } else {
        WitchDecision::Skip
    }
}

/// Whom the guard protects without an answer that helps: themselves if they may.
pub open spec fn guard_default(list: Seq<(usize, Seq<char>)>, me: usize) -> usize {
    if listed(list, me as int) { me } else { list[0].0 }
}

/// Whom the guard protects: the one named if that is legal.
pub open spec fn guard_choice(v: PublicModel, last: Option<usize>, reply: Option<usize>) -> usize {
    let list = guardable(v.players, last);
    if list.len() == 0 {
        v.me_idx
    } else {
        match reply {
            Some(t) => if listed(list, t as int) { t } else { guard_default(list, v.me_idx) },
            None => guard_default(list, v.me_idx),
        }
    }
}

/// Whom the guard protects.
pub fn guard_pick(v: &PublicView, game: &WolfGame, reply: Option<usize>) -> (r: usize)
    ensures
        r == guard_choice(v@, game@.last_guard_target, reply),
{
    let list = guard_targets(v, game.last_guard_target);
    assert(said_view(list@).len() == list@.len());
    if list.len() == 0 {
        return v.me_idx;
    }
    if let Some(t) = reply {
        if is_listed(&list, t) {
            return t;
        }
    }
    assert(said_view(list@)[0].0 == list@[0].0);
    if is_listed(&list, v.me_idx) {
        v.me_idx
    } else {
        list[0].0
    }
}

// ---- the day ----

/// Whom a player votes out; nobody without an answer that helps.
pub fn vote_pick(v: &PublicView, reply: Option<i64>) -> (r: VoteDecision)
    ensures
        r.target_idx == named(others(v@.players, v@.me_idx), reply),
{
    let list = other_players(v);
    VoteDecision { target_idx: read_named(&list, reply) }
}

/// Whom a dying hunter or wolf king shoots; nobody without an answer that helps.
pub fn hunter_pick(v: &PublicView, reply: Option<i64>) -> (r: Option<usize>)
    ensures
        r == named(others(v@.players, v@.me_idx), reply),
{
    let list = other_players(v);
    read_named(&list, reply)
}

/// Whether a player runs for sheriff; without an answer the seer does.
pub fn sheriff_run(v: &PublicView, reply: Option<bool>) -> (r: bool)
    ensures
        r == (match reply {
            Some(run) => run,
            None => v@.me_role == Role::Seer,
        }),
{
    match reply {
        Some(run) => run,
        None => v.me_role == Role::Seer,
    }
}

/// Which candidate a player makes sheriff; nobody without an answer that helps.
pub fn sheriff_vote(candidates: &Vec<(usize, String)>, reply: Option<i64>) -> (r: Option<usize>)
    ensures
        r == named(said_view(candidates@), reply),
{
    read_named(candidates, reply)
}

/// Who takes the badge; without an answer that helps it is torn up.
pub fn badge_pass(v: &PublicView, reply: Option<i64>) -> (r: Option<usize>)
    ensures
        r == named(others(v@.players, v@.me_idx), reply),
{
    let list = other_players(v);
    read_named(&list, reply)
}

/// The speech for an answer: what is said in it, or else the default.
pub open spec fn speech_text(reply: Option<Option<Seq<char>>>, n: nat, silent: Seq<char>, failed: Seq<char>) -> Seq<char> {
    match reply {
        Some(s) => match clipped(s, n) {
            Some(t) => t,
            None => silent,
        },
        None => failed,
    }
}

pub open spec fn reply_view(reply: Option<Option<String>>) -> Option<Option<Seq<char>>> {
    match reply {
        Some(s) => Some(option_view(s)),
        None => None,
    }
}

fn speech(reply: &Option<Option<String>>, n: usize, silent: &str, failed: &str) -> (r: String)
    ensures
        r@ == speech_text(reply_view(*reply), n as nat, silent@, failed@),
{
    match reply {
        Some(s) => match clip(s, n) {
            Some(t) => t,
            None => silent.to_owned(),
        },
        None => failed.to_owned(),
    }
}

/// A candidate's speech.
pub fn sheriff_speech(reply: &Option<Option<String>>) -> (r: String)
    ensures
        r@ == speech_text(reply_view(*reply), 200, "我支持平和过渡，先听其他玩家。"@, "我先表态。"@),
{
    speech(reply, 200, "我支持平和过渡，先听其他玩家。", "我先表态。")
}

/// What a player who does not run says of those who do.
pub fn sheriff_side_speech(reply: &Option<Option<String>>) -> (r: String)
    ensures
        r@ == speech_text(reply_view(*reply), 150, ""@, ""@),
{
    speech(reply, 150, "", "")
}

/// Which way round the table speaks; clockwise without an answer.
pub fn sheriff_direction(reply: Option<bool>) -> (r: bool)
    ensures
        r == (match reply {
            Some(clockwise) => clockwise,
            None => true,
        }),
{
    match reply {
        Some(clockwise) => clockwise,
        None => true,
    }
}

/// A dead player's last words.
pub fn last_words(reply: &Option<Option<String>>) -> (r: String)
    ensures
        r@ == speech_text(reply_view(*reply), 250, ""@, ""@),
{
    speech(reply, 250, "", "")
}

/// A dying hunter's or wolf king's last words and shot.
pub fn dying_hunter_combined(v: &PublicView, reply: &Option<DyingReply>) -> (r: DyingShooterDecision)
    ensures
        match *reply {
            Some(a) => r.speech@ == speech_text(Some(option_view(a.speech)), 250, ""@, ""@)
                && r.target == named(others(v@.players, v@.me_idx), a.target_idx),
            None => r.speech@ == ""@ && r.target is None,
        },
{
    match reply {
        Some(a) => {
            let said = match clip(&a.speech, 250) {
                Some(t) => t,
                None => "".to_owned(),
            };
            let list = other_players(v);
            DyingShooterDecision { speech: said, target: read_named(&list, a.target_idx) }
        },
        None => DyingShooterDecision { speech: "".to_owned(), target: None },
    }
}

/// A player's speech of the day.
pub fn day_speech(reply: &Option<Option<String>>) -> (r: String)
    ensures
        r@ == speech_text(reply_view(*reply), 200, ""@, ""@),
{
    speech(reply, 200, "", "")
}

// ---- without a model ----

/// The first living player from `from` on who is no wolf.
pub open spec fn first_prey(players: Seq<WolfPlayerView>, from: int) -> Option<usize>
    decreases players.len() - from,
{
    if from < 0 || from >= players.len() {
        None
    } else if players[from].alive && !players[from].wolf() {
        Some(from as usize)
    } else {
        first_prey(players, from + 1)
    }
}

pub open spec fn wolf_alone(g: WolfGameView) -> usize {
    match first_prey(g.players, 0) {
        Some(i) => i,
        None => 0,
    }
}

/// Whom a wolf kills without a model: the first who can be killed.
pub fn wolf_default(game: &WolfGame) -> (r: usize)
    requires
        game@.wf(),
    ensures
        r == wolf_alone(game@),
{
    let mut i: usize = 0;
    assert(game.players@.len() == game@.players.len());
    while i < game.players.len()
        invariant
            i <= game.players@.len() == game@.players.len(),
            first_prey(game@.players, 0) == first_prey(game@.players, i as int),
        decreases game.players@.len() - i,
    {
        assert(game@.players[i as int] == game.players@[i as int]@);
        if game.players[i].alive && !game.is_wolf(i) {
            return i;
        }
        i = i + 1;
    }
    0
}

/// The first living player from `from` on but for the one at `me`.
pub open spec fn first_other(players: Seq<WolfPlayerView>, me: usize, from: int) -> Option<usize>
    decreases players.len() - from,
{
    if from < 0 || from >= players.len() {
        None
    } else if players[from].alive && from != me {
        Some(from as usize)
    } else {
        first_other(players, me, from + 1)
    }
}

pub open spec fn seer_alone(g: WolfGameView, me: usize) -> usize {
    match first_other(g.players, me, 0) {
        Some(i) => i,
        None => 0,
    }
}

/// Whom the seer checks without a model: the first other who lives.
pub fn seer_default(game: &WolfGame, me: usize) -> (r: usize)
    requires
        game@.wf(),
    ensures
        r == seer_alone(game@, me),
{
    let mut i: usize = 0;
    assert(game.players@.len() == game@.players.len());
    while i < game.players.len()
        invariant
            i <= game.players@.len() == game@.players.len(),
            first_other(game@.players, me, 0) == first_other(game@.players, me, i as int),
        decreases game.players@.len() - i,
    {
        assert(game@.players[i as int] == game.players@[i as int]@);
        if game.players[i].alive && i != me {
            return i;
        }
        i = i + 1;
    }
    0
}

/// The first of the seats from `from` on that is not the given one.
pub open spec fn first_but(seats: Seq<usize>, not: Option<usize>, from: int) -> Option<usize>
    decreases seats.len() - from,
{
    if from < 0 || from >= seats.len() {
        None
    } else if not != Some(seats[from]) {
        Some(seats[from])
    } else {
        first_but(seats, not, from + 1)
    }
}

/// What a candidate says without a model.
pub const SPEECH_WITHOUT_MODEL: &'static str = "我支持公平选举。";

/// Which candidate a player makes sheriff without a model: the first.
pub fn sheriff_vote_without_model(candidates: &Vec<(usize, String)>) -> (r: Option<usize>)
    ensures
        r == (if candidates@.len() > 0 { Some(candidates@[0].0) } else { None }),
{
    if candidates.len() > 0 {
        Some(candidates[0].0)
    } else {
        None
    }
}

pub open spec fn guard_alone(g: WolfGameView, me: usize) -> usize {
    if g.last_guard_target != Some(me) {
        me
    } else {
        match first_but(living(g.players), g.last_guard_target, 0) {
            Some(i) => i,
            None => me,
        }
    }
}

/// Whom the guard protects without a model: themselves, or, where they did so
/// last night, the first other who lives.
pub fn guard_without_model(game: &WolfGame, me: usize) -> (r: usize)
    requires
        game@.wf(),
    ensures
        r == guard_alone(game@, me),
{
    let last: usize = match game.last_guard_target {
        Some(l) => l,
        None => {
            return me;
        },
    };
    if last != me {
        return me;
    }
    let alive = game.alive_indices();
    let mut i: usize = 0;
    while i < alive.len()
        invariant
            alive@ == living(game@.players),
            game@.last_guard_target == Some(last),
            last == me,
            i <= alive@.len(),
            first_but(alive@, Some(last), 0) == first_but(alive@, Some(last), i as int),
        decreases alive@.len() - i,
    {
        if alive[i] != last {
            return alive[i];
        }
        i = i + 1;
    }
    me
}

// ---- laws ----

proof fn prey_facts(players: Seq<(usize, Seq<char>, bool)>, g: WolfGameView, seat: int)
    requires
        listed(prey(players, g), seat),
    ensures
        !wolf_at(g, seat as usize),
        exists|i: int| 0 <= i < players.len() && (#[trigger] players[i]).0 == seat && players[i].2,
    decreases players.len(),
{
    if players.len() > 0 {
        let rest = players.drop_last();
        let p = players.last();
        if p.2 && !wolf_at(g, p.0) && p.0 == seat {
            assert(players[players.len() - 1].0 == seat);
        } else {
            let k = choose|k: int| 0 <= k < prey(players, g).len() && (#[trigger] prey(players, g)[k]).0 == seat;
            assert(prey(rest, g)[k].0 == seat);
            prey_facts(rest, g, seat);
            let i = choose|i: int| 0 <= i < rest.len() && (#[trigger] rest[i]).0 == seat && rest[i].2;
            assert(players[i] == rest[i]);
        }
    }
}

/// Whatever the model answers, an AI wolf strikes a living player who is no
/// wolf, if there is one.
pub proof fn a_wolf_strikes_no_wolf(v: PublicModel, g: WolfGameView, answer: Option<usize>)
    requires
        prey(v.players, g).len() > 0,
    ensures
        !wolf_at(g, wolf_target(prey(v.players, g), answer)),
        exists|i: int| 0 <= i < v.players.len() && (#[trigger] v.players[i]).0 == wolf_target(prey(v.players, g), answer)
            && v.players[i].2,
{
    let list = prey(v.players, g);
    let t = wolf_target(list, answer);
    assert(list[0].0 == list[0].0);
    assert(listed(list, t as int));
    prey_facts(v.players, g, t as int);
}

pub proof fn others_facts(players: Seq<(usize, Seq<char>, bool)>, me: usize, seat: int)
    requires
        listed(others(players, me), seat),
    ensures
        seat != me,
        exists|i: int| 0 <= i < players.len() && (#[trigger] players[i]).0 == seat && players[i].2,
    decreases players.len(),
{
    if players.len() > 0 {
        let rest = players.drop_last();
        let p = players.last();
        if p.2 && p.0 != me && p.0 == seat {
            assert(players[players.len() - 1].0 == seat);
        } else {
            let k = choose|k: int| 0 <= k < others(players, me).len() && (#[trigger] others(players, me)[k]).0 == seat;
            assert(others(rest, me)[k].0 == seat);
            others_facts(rest, me, seat);
            let i = choose|i: int| 0 <= i < rest.len() && (#[trigger] rest[i]).0 == seat && rest[i].2;
            assert(players[i] == rest[i]);
        }
    }
}

/// Whatever the model answers, an AI player votes for, shoots or hands the
/// badge to a living other, or nobody.
pub proof fn a_choice_is_a_living_other(v: PublicModel, answer: Option<i64>)
    ensures
        match named(others(v.players, v.me_idx), answer) {
            Some(t) => t != v.me_idx && exists|i: int| 0 <= i < v.players.len() && (#[trigger] v.players[i]).0 == t
                && v.players[i].2,
            None => true,
        },
{
    if let Some(t) = named(others(v.players, v.me_idx), answer) {
        others_facts(v.players, v.me_idx, t as int);
    }
}

/// Whatever the model answers, the witch uses no potion twice and saves nobody
/// who was not struck.
pub proof fn a_potion_is_used_once(v: PublicModel, g: WolfGameView, action: Seq<char>, poison: Option<usize>)
    ensures
        witch_choice(v, g, action, poison) == WitchDecision::Save ==> !g.witch_save_used && g.night_victim is Some,
        witch_choice(v, g, action, poison) is Poison ==> !g.witch_poison_used
            && witch_choice(v, g, action, poison)->Poison_0 != v.me_idx,
{
    if let WitchDecision::Poison(t) = witch_choice(v, g, action, poison) {
        others_facts(v.players, v.me_idx, t as int);
    }
}

} // verus!
