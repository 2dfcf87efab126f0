//! What the buttons of the werewolf game do, which stage ends how, and how a game
//! begins.

use vstd::prelude::*;
use vstd::string::*;
use crate::feishu::events::CardActionView;
use crate::game::view::GameView;
use crate::game::{Persona, Stage};
use super::clicks::{move_of, wolf_click_of, Finding, WolfClickView, WolfMoveView};
use super::model::{role_seat, role_seat_facts, wolf_seat, wolf_seat_facts, WolfGameView, WolfPlayerView};
use super::nights::{nothing_chosen, sits};
use super::room::{open_error, room_of};
use super::steps::{Task, WolfStepView};
use super::table::board;
use super::{Role, WolfError, WolfStage};

verus! {

// ---- buttons ----

/// Letters that tell the buttons apart.
proof fn buttons_differ()
    ensures
        "wolf_kill"@.len() == 9 && "wolf_kill"@[5] == 'k',
        "wolf_vote"@.len() == 9 && "wolf_vote"@[5] == 'v',
        "wolf_ready"@.len() == 10,
        "wolf_chat_send"@.len() == 14,
        "wolf_guard_pick"@.len() == 15 && "wolf_guard_pick"@[5] == 'g',
        "wolf_badge_pass"@.len() == 15 && "wolf_badge_pass"@[5] == 'b',
        "wolf_seer_check"@.len() == 15 && "wolf_seer_check"@[5] == 's',
        "wolf_witch_save"@.len() == 15 && "wolf_witch_save"@[5] == 'w' && "wolf_witch_save"@[12] == 'a',
        "wolf_witch_skip"@.len() == 15 && "wolf_witch_skip"@[5] == 'w' && "wolf_witch_skip"@[12] == 'k',
        "wolf_sheriff_run"@.len() == 16 && "wolf_sheriff_run"@[5] == 's',
        "wolf_hunter_skip"@.len() == 16 && "wolf_hunter_skip"@[5] == 'h',
        "wolf_sheriff_skip"@.len() == 17 && "wolf_sheriff_skip"@[5] == 's' && "wolf_sheriff_skip"@[13] == 's',
        "wolf_sheriff_vote"@.len() == 17 && "wolf_sheriff_vote"@[5] == 's' && "wolf_sheriff_vote"@[13] == 'v',
        "wolf_witch_poison"@.len() == 17 && "wolf_witch_poison"@[5] == 'w',
        "wolf_vote_abstain"@.len() == 17 && "wolf_vote_abstain"@[5] == 'v',
        "wolf_hunter_shoot"@.len() == 17 && "wolf_hunter_shoot"@[5] == 'h',
        "wolf_badge_destroy"@.len() == 18,
        "wolf_sheriff_dir_up"@.len() == 19,
        "wolf_day_speech_skip"@.len() == 20 && "wolf_day_speech_skip"@[5] == 'd',
        "wolf_last_words_skip"@.len() == 20 && "wolf_last_words_skip"@[5] == 'l',
        "wolf_sheriff_dir_down"@.len() == 21,
        "wolf_day_speech_submit"@.len() == 22 && "wolf_day_speech_submit"@[5] == 'd',
        "wolf_sheriff_side_skip"@.len() == 22 && "wolf_sheriff_side_skip"@[5] == 's',
        "wolf_last_words_submit"@.len() == 22 && "wolf_last_words_submit"@[5] == 'l',
        "wolf_sheriff_speech_skip"@.len() == 24 && "wolf_sheriff_speech_skip"@[14] == 'p',
        "wolf_sheriff_side_submit"@.len() == 24 && "wolf_sheriff_side_submit"@[14] == 'i',
        "wolf_sheriff_vote_abstain"@.len() == 25,
        "wolf_sheriff_speech_submit"@.len() == 26,
{
    reveal_strlit("wolf_kill");
    reveal_strlit("wolf_vote");
    reveal_strlit("wolf_ready");
    reveal_strlit("wolf_chat_send");
    reveal_strlit("wolf_guard_pick");
    reveal_strlit("wolf_badge_pass");
    reveal_strlit("wolf_seer_check");
    reveal_strlit("wolf_witch_save");
    reveal_strlit("wolf_witch_skip");
    reveal_strlit("wolf_sheriff_run");
    reveal_strlit("wolf_hunter_skip");
    reveal_strlit("wolf_sheriff_skip");
    reveal_strlit("wolf_sheriff_vote");
    reveal_strlit("wolf_witch_poison");
    reveal_strlit("wolf_vote_abstain");
    reveal_strlit("wolf_hunter_shoot");
    reveal_strlit("wolf_badge_destroy");
    reveal_strlit("wolf_sheriff_dir_up");
    reveal_strlit("wolf_day_speech_skip");
    reveal_strlit("wolf_last_words_skip");
    reveal_strlit("wolf_sheriff_dir_down");
    reveal_strlit("wolf_day_speech_submit");
    reveal_strlit("wolf_sheriff_side_skip");
    reveal_strlit("wolf_last_words_submit");
    reveal_strlit("wolf_sheriff_speech_skip");
    reveal_strlit("wolf_sheriff_side_submit");
    reveal_strlit("wolf_sheriff_vote_abstain");
    reveal_strlit("wolf_sheriff_speech_submit");
}

/// A button that names a player makes the move that stands on it, at that player.
pub proof fn each_target_button_has_its_move(action: CardActionView, t: Seq<char>)
    requires
        action.value.get_text("target"@) == Some(t),
    ensures
        move_of("wolf_guard_pick"@, action) == Some(Ok::<WolfMoveView, Seq<char>>(WolfMoveView::Guard(t))),
        move_of("wolf_kill"@, action) == Some(Ok::<WolfMoveView, Seq<char>>(WolfMoveView::Kill(t))),
        move_of("wolf_seer_check"@, action) == Some(Ok::<WolfMoveView, Seq<char>>(WolfMoveView::Check(t))),
        move_of("wolf_witch_poison"@, action) == Some(Ok::<WolfMoveView, Seq<char>>(WolfMoveView::Witch(false, Some(t)))),
        move_of("wolf_hunter_shoot"@, action) == Some(Ok::<WolfMoveView, Seq<char>>(WolfMoveView::Shoot(Some(t)))),
        move_of("wolf_badge_pass"@, action) == Some(Ok::<WolfMoveView, Seq<char>>(WolfMoveView::Badge(Some(t)))),
        move_of("wolf_sheriff_vote"@, action) == Some(Ok::<WolfMoveView, Seq<char>>(WolfMoveView::SheriffVote(Some(t)))),
        move_of("wolf_vote"@, action) == Some(Ok::<WolfMoveView, Seq<char>>(WolfMoveView::Vote(Some(t)))),
{
    buttons_differ();
}

/// Without a player to name, such a button is refused.
pub proof fn a_target_button_needs_a_target(action: CardActionView)
    requires
        action.value.get_text("target"@) is None,
    ensures
        move_of("wolf_guard_pick"@, action) matches Some(Err(_)),
        move_of("wolf_kill"@, action) matches Some(Err(_)),
        move_of("wolf_seer_check"@, action) matches Some(Err(_)),
        move_of("wolf_witch_poison"@, action) matches Some(Err(_)),
        move_of("wolf_hunter_shoot"@, action) matches Some(Err(_)),
        move_of("wolf_badge_pass"@, action) matches Some(Err(_)),
        move_of("wolf_sheriff_vote"@, action) matches Some(Err(_)),
        move_of("wolf_vote"@, action) matches Some(Err(_)),
{
    buttons_differ();
}

/// The other buttons make the move that stands on them too.
pub proof fn each_plain_button_has_its_move(action: CardActionView)
    ensures
        move_of("wolf_ready"@, action) == Some(Ok::<WolfMoveView, Seq<char>>(WolfMoveView::Ready)),
        move_of("wolf_sheriff_run"@, action) == Some(Ok::<WolfMoveView, Seq<char>>(WolfMoveView::Nominate(true))),
        move_of("wolf_sheriff_skip"@, action) == Some(Ok::<WolfMoveView, Seq<char>>(WolfMoveView::Nominate(false))),
        move_of("wolf_sheriff_dir_up"@, action) == Some(Ok::<WolfMoveView, Seq<char>>(WolfMoveView::Direction(true))),
        move_of("wolf_sheriff_dir_down"@, action) == Some(Ok::<WolfMoveView, Seq<char>>(WolfMoveView::Direction(false))),
        move_of("wolf_sheriff_vote_abstain"@, action) == Some(Ok::<WolfMoveView, Seq<char>>(WolfMoveView::SheriffVote(None))),
        move_of("wolf_badge_destroy"@, action) == Some(Ok::<WolfMoveView, Seq<char>>(WolfMoveView::Badge(None))),
        move_of("wolf_witch_save"@, action) == Some(Ok::<WolfMoveView, Seq<char>>(WolfMoveView::Witch(true, None))),
        move_of("wolf_witch_skip"@, action) == Some(Ok::<WolfMoveView, Seq<char>>(WolfMoveView::Witch(false, None))),
        move_of("wolf_vote_abstain"@, action) == Some(Ok::<WolfMoveView, Seq<char>>(WolfMoveView::Vote(None))),
        move_of("wolf_hunter_skip"@, action) == Some(Ok::<WolfMoveView, Seq<char>>(WolfMoveView::Shoot(None))),
{
    buttons_differ();
}

/// A speech that is sent is what was written in the form, and one that is skipped is
/// nothing.
pub proof fn each_speech_button_has_its_move(action: CardActionView, text: Seq<char>)
    requires
        action.form_value.get_text("speech"@) == Some(text),
    ensures
        move_of("wolf_sheriff_speech_submit"@, action) == Some(Ok::<WolfMoveView, Seq<char>>(WolfMoveView::SheriffSpeech(text))),
        move_of("wolf_sheriff_side_submit"@, action) == Some(Ok::<WolfMoveView, Seq<char>>(WolfMoveView::SideSpeech(text))),
        move_of("wolf_day_speech_submit"@, action) == Some(Ok::<WolfMoveView, Seq<char>>(WolfMoveView::DaySpeech(text))),
        move_of("wolf_last_words_submit"@, action) == Some(Ok::<WolfMoveView, Seq<char>>(WolfMoveView::LastWords(text))),
        move_of("wolf_sheriff_speech_skip"@, action) matches Some(Ok(WolfMoveView::SheriffSpeech(s))) && s.len() == 0,
        move_of("wolf_sheriff_side_skip"@, action) matches Some(Ok(WolfMoveView::SideSpeech(s))) && s.len() == 0,
        move_of("wolf_day_speech_skip"@, action) matches Some(Ok(WolfMoveView::DaySpeech(s))) && s.len() == 0,
        move_of("wolf_last_words_skip"@, action) matches Some(Ok(WolfMoveView::LastWords(s))) && s.len() == 0,
{
    buttons_differ();
    reveal_strlit("");
}

/// A click makes its button's move in the game that the button belongs to, and only for
/// whoever the card was made.
pub proof fn when_a_click_is_a_move(id: Seq<char>, action: CardActionView, g: WolfGameView)
    ensures
        ({
            let of_game = match action.value.get_number("game"@) {
                Some(n) => n == 0 || n % 0x1_0000_0000 == g.game_count,
                None => true,
            };
            let of_player = match action.value.get_text("actor"@) {
                Some(a) => a.len() == 0 || action.open_id == a,
                None => true,
            };
            let chat = match action.value.get_text("chat_id"@) {
                Some(c) => c,
                None => action.open_chat_id,
            };
            let r = wolf_click_of(id, action, Some(g));
            &&& !of_game || !of_player ==> r is Refused
            &&& of_game && of_player && move_of(id, action) is None ==> r == WolfClickView::Nothing
            &&& of_game && of_player ==> (move_of(id, action) matches Some(Ok(m)) ==> r == WolfClickView::Move(m, chat))
            &&& of_game && of_player ==> (move_of(id, action) matches Some(Err(s)) ==> r == WolfClickView::Refused(s))
        }),
{
    reveal_strlit("");
}

/// Whether a move came to what the game says of it, with nothing to find out.
pub open spec fn made(r: Result<(WolfGameView, Finding), WolfError>, said: Result<WolfGameView, WolfError>) -> bool {
    match said {
        Ok(h) => r == Ok::<(WolfGameView, Finding), WolfError>((h, Finding::Nothing)),
        Err(e) => r == Err::<(WolfGameView, Finding), WolfError>(e),
    }
}

/// Each move of the night is made as what it is.
pub proof fn night_moves_are_made(g: WolfGameView, id: Seq<char>, t: Seq<char>, b: bool, o: Option<Seq<char>>)
    ensures
        made(g.moved(id, WolfMoveView::Guard(t)), g.guard_result(id, t)),
        made(g.moved(id, WolfMoveView::Kill(t)), g.wolf_pick_result(id, t)),
        made(g.moved(id, WolfMoveView::Say(t)), g.wolf_say_result(id, t)),
        made(g.moved(id, WolfMoveView::Ready), g.wolf_ready_result(id)),
        made(g.moved(id, WolfMoveView::Witch(b, o)), g.witch_result(id, b, o)),
{
    reveal(WolfGameView::moved);
}

/// So is each speech.
pub proof fn speeches_are_made(g: WolfGameView, id: Seq<char>, t: Seq<char>)
    ensures
        made(g.moved(id, WolfMoveView::SheriffSpeech(t)), g.sheriff_speech_result(id, t)),
        made(g.moved(id, WolfMoveView::SideSpeech(t)), g.side_speech_result(id, t)),
        made(g.moved(id, WolfMoveView::DaySpeech(t)), g.day_speech_result(id, t)),
        made(g.moved(id, WolfMoveView::LastWords(t)), g.last_words_result(id, t)),
{
    reveal(WolfGameView::moved);
}

/// And each choice and vote of the day.
pub proof fn votes_are_made(g: WolfGameView, id: Seq<char>, b: bool, o: Option<Seq<char>>)
    ensures
        made(g.moved(id, WolfMoveView::Nominate(b)), g.nominate_result(id, b)),
        made(g.moved(id, WolfMoveView::Direction(b)), g.direction_result(id, b)),
        made(g.moved(id, WolfMoveView::SheriffVote(o)), g.sheriff_vote_result(id, o)),
        made(g.moved(id, WolfMoveView::Vote(o)), g.vote_result(id, o)),
{
    reveal(WolfGameView::moved);
}

/// What the seer looks at, the shot and the badge are made as what they are, and tell what
/// came of them.
pub proof fn findings_are_told(g: WolfGameView, id: Seq<char>, t: Seq<char>, o: Option<Seq<char>>)
    ensures
        g.moved(id, WolfMoveView::Check(t)) == (match g.seer_result(id, t) {
            Ok((h, w)) => Ok::<(WolfGameView, Finding), WolfError>((h, Finding::Wolf(w))),
            Err(e) => Err(e),
        }),
        g.moved(id, WolfMoveView::Badge(o)) == (match g.badge_result(id, o) {
            Ok((h, w)) => Ok::<(WolfGameView, Finding), WolfError>((h, Finding::Badge(w))),
            Err(e) => Err(e),
        }),
        g.moved(id, WolfMoveView::Shoot(o)) == (match g.hunter_result(id, o) {
            Ok((h, w)) => Ok::<(WolfGameView, Finding), WolfError>((h, Finding::Shot(w))),
            Err(e) => Err(e),
        }),
{
    reveal(WolfGameView::moved);
}

/// A stage that is complete ends as itself; in the stages of one player there is nothing
/// to end.
pub proof fn each_stage_ends_as_itself(g: WolfGameView)
    ensures
        g.stage == WolfStage::WolvesPick ==> g.conclusion() == g.wolves_done_result(),
        g.stage == WolfStage::DayReveal ==> g.conclusion() == g.reveal_result(),
        g.stage == WolfStage::LastWords ==> g.conclusion() == g.last_words_done_result(),
        g.stage == WolfStage::SheriffNominate ==> g.conclusion() == g.nominated_result(),
        g.stage == WolfStage::SheriffSpeech ==> g.conclusion() == g.sheriff_speeches_done_result(),
        g.stage == WolfStage::SheriffSideSpeech ==> g.conclusion() == g.side_speeches_done_result(),
        g.stage == WolfStage::SheriffVote ==> g.conclusion() == g.sheriff_votes_done_result(),
        g.stage == WolfStage::DaySpeech ==> g.conclusion() == g.day_speeches_done_result(),
        g.stage == WolfStage::DayVote && g.count_result() is Ok ==> g.conclusion() == g.count_result()->Ok_0.evening_result(),
        g.stage == WolfStage::Lobby || g.stage == WolfStage::Ended || g.stage == WolfStage::GuardPick || g.stage == WolfStage::SeerPick
            || g.stage == WolfStage::WitchAct || g.stage == WolfStage::HunterShoot || g.stage == WolfStage::BadgePass ==> g.conclusion() is Err,
{
}

// ---- whose turn it is ----

/// Whether the step falls to the player in this seat: an AI is asked, a person gets a card.
pub open spec fn turns_to(g: WolfGameView, step: WolfStepView, i: usize, task: Task) -> bool {
    step == (if g.players[i as int].is_ai { WolfStepView::Ask(i, task) } else { WolfStepView::Prompt(i, task) })
}

/// In a stage of one player it is that player's turn: the guard's, the seer's, the
/// witch's, the shooter's, the old sheriff's or the sheriff's.
pub proof fn whom_the_game_turns_to(g: WolfGameView, asked: bool, i: usize)
    requires
        g.wf(),
        i < g.players.len(),
    ensures
        ({
            let alone = |role: Role| g.players[i as int].role == Some(role) && forall|j: int|
                0 <= j < g.players.len() && j != i ==> (#[trigger] g.players[j]).role != Some(role);
            let step = g.step(asked);
            &&& g.stage == WolfStage::GuardPick && alone(Role::Guard) && g.players[i as int].alive ==> turns_to(g, step, i, Task::Guard)
            &&& g.stage == WolfStage::GuardPick && alone(Role::Guard) && !g.players[i as int].alive ==> step == WolfStepView::SkipGuard
            &&& g.stage == WolfStage::SeerPick && alone(Role::Seer) ==> turns_to(g, step, i, Task::Seer)
            &&& g.stage == WolfStage::WitchAct && alone(Role::Witch) ==> turns_to(g, step, i, Task::Witch)
            &&& g.stage == WolfStage::HunterShoot && g.pending_hunter == Some(i) ==> turns_to(g, step, i, Task::Shot)
            &&& g.stage == WolfStage::BadgePass && g.pending_badge == Some(i) ==> turns_to(g, step, i, Task::Badge)
            &&& g.stage == WolfStage::SheriffPickDirection && g.sheriff_idx == Some(i) ==> turns_to(g, step, i, Task::Direction)
        }),
{
    role_seat_facts(g.players, Role::Guard, 0);
    role_seat_facts(g.players, Role::Seer, 0);
    role_seat_facts(g.players, Role::Witch, 0);
}

/// In a stage of speeches it turns to whoever has the floor, and ends the stage when all
/// have spoken. Without a sheriff it is drawn who speaks first.
pub proof fn who_has_the_floor(g: WolfGameView, asked: bool)
    requires
        g.wf(),
    ensures
        ({
            let step = g.step(asked);
            &&& g.stage == WolfStage::LastWords ==> if g.last_words.next < g.last_words.order.len() {
                turns_to(g, step, g.last_words.order[g.last_words.next], Task::LastWords)
            } else {
                step == WolfStepView::Conclude
            }
            &&& g.stage == WolfStage::SheriffSpeech ==> if g.sheriff_speech.next < g.sheriff_speech.order.len() {
                turns_to(g, step, g.sheriff_speech.order[g.sheriff_speech.next], Task::SheriffSpeech)
            } else {
                step == WolfStepView::Conclude
            }
            &&& g.stage == WolfStage::SheriffSideSpeech ==> if g.side_speech.next < g.side_speech.order.len() {
                turns_to(g, step, g.side_speech.order[g.side_speech.next], Task::SideSpeech)
            } else {
                step == WolfStepView::Conclude
            }
            &&& g.stage == WolfStage::DaySpeech ==> if g.day_speech.next < g.day_speech.order.len() {
                turns_to(g, step, g.day_speech.order[g.day_speech.next], Task::DaySpeech)
            } else {
                step == WolfStepView::Conclude
            }
            &&& g.stage == WolfStage::DayOpen ==> step == WolfStepView::Draw
            &&& g.stage == WolfStage::DayReveal ==> step == WolfStepView::Conclude
            &&& g.stage == WolfStage::Lobby || g.stage == WolfStage::Ended ==> step == WolfStepView::Rest
        }),
{
}

// ---- the beginning ----

/// How often a role is among the first `n`.
pub open spec fn role_count(roles: Seq<Role>, role: Role, n: nat) -> nat
    decreases n,
{
    if n == 0 {
        0
    } else {
        role_count(roles, role, (n - 1) as nat) + if roles[n - 1] == role { 1nat } else { 0nat }
    }
}

/// Who is in a game of nine, ten, eleven or twelve.
pub proof fn who_is_in_the_game()
    ensures
        in_the_game(board(9), 3, 0, 0, 3),
        board(9).len() == 9,
        in_the_game(board(10), 2, 1, 1, 3),
        board(10).len() == 10,
        in_the_game(board(11), 2, 1, 1, 4),
        board(11).len() == 11,
        in_the_game(board(12), 3, 1, 1, 4),
        board(12).len() == 12,
{
    reveal_with_fuel(role_count, 13);
}

/// Whether there are so many wolves, wolf kings, guards and villagers, and one each of
/// seer, witch and hunter.
pub open spec fn in_the_game(roles: Seq<Role>, wolves: nat, kings: nat, guards: nat, villagers: nat) -> bool {
    let n = roles.len();
    &&& role_count(roles, Role::Werewolf, n) == wolves
    &&& role_count(roles, Role::WolfKing, n) == kings
    &&& role_count(roles, Role::Guard, n) == guards
    &&& role_count(roles, Role::Villager, n) == villagers
    &&& role_count(roles, Role::Seer, n) == 1
    &&& role_count(roles, Role::Witch, n) == 1
    &&& role_count(roles, Role::Hunter, n) == 1
}

/// A game starts in the lobby or after another, with nine to twelve.
pub proof fn when_a_game_can_start(g: WolfGameView)
    ensures
        g.start_error() == (if g.stage != WolfStage::Lobby && g.stage != WolfStage::Ended {
            Some(WolfError::InPlay)
        } else if 9 <= g.players.len() <= 12 {
            None
        } else {
            Some(WolfError::WrongHeadcount)
        }),
{
}

/// A game starts in its first night, with everybody alive and in their role, both potions
/// full, and nothing chosen, said or decided. A guard, where there is one, is first.
pub proof fn how_a_game_starts(g: WolfGameView, roles: Seq<Role>, i: int)
    requires
        g.players.len() <= 12,
        roles.len() == g.players.len(),
        0 <= i < g.players.len(),
        g.game_count < u32::MAX,
    ensures
        ({
            let h = g.started(roles);
            &&& h.players.len() == g.players.len()
            &&& h.players[i] == (WolfPlayerView { alive: true, role: Some(roles[i]), ..g.players[i] })
            &&& h.day == 1
            &&& h.game_count == g.game_count + 1
            &&& h.stage == (if roles.contains(Role::Guard) { WolfStage::GuardPick } else { WolfStage::WolvesPick })
            &&& nothing_chosen(h)
            &&& h.last_guard_target is None
            &&& !h.witch_save_used && !h.witch_poison_used
            &&& h.seer_history.len() == 0
            &&& h.sheriff_idx is None
            &&& h.sheriff_done == (g.players.len() <= 9)
            &&& h.sheriff_nominations.len() == 0
            &&& h.pending_hunter is None && h.pending_badge is None
            &&& h.event_log.len() == 0 && h.recap_log.len() == 0
            &&& h.chat_id == g.chat_id
        }),
{
    let h = g.started(roles);
    role_seat_facts(h.players, Role::Guard, 0);
    if roles.contains(Role::Guard) {
        let k = choose|k: int| 0 <= k < roles.len() && roles[k] == Role::Guard;
        assert(h.players[k].role == Some(Role::Guard));
    }
    if role_seat(h.players, Role::Guard, 0) is Some {
        let k = role_seat(h.players, Role::Guard, 0)->0 as int;
        assert(roles[k] == Role::Guard);
    }
}

/// Anybody who is not in the room yet may come in before the game, up to twelve.
pub proof fn who_may_come_in(g: WolfGameView, open_id: Seq<char>, name: Seq<char>, is_ai: bool, persona: Option<Persona>)
    requires
        g.wf(),
    ensures
        ({
            let here = exists|i: usize| sits(g, open_id, i);
            g.join_error(open_id) == (if g.stage != WolfStage::Lobby {
                Some(WolfError::InPlay)
            } else if here {
                Some(WolfError::AlreadySeated)
            } else if g.players.len() >= 12 {
                Some(WolfError::RoomFull)
            } else {
                None
            })
        }),
        ({
            let h = g.joined(open_id, name, is_ai, persona);
            let p = h.players[g.players.len() as int];
            &&& h == (WolfGameView { players: h.players, ..g })
            &&& h.players.len() == g.players.len() + 1
            &&& forall|i: int| 0 <= i < g.players.len() ==> #[trigger] h.players[i] == g.players[i]
            &&& p == (WolfPlayerView { open_id, name, is_ai, persona, alive: true, role: None })
        }),
{
    wolf_seat_facts(g.players, open_id, 0);
    match wolf_seat(g.players, open_id, 0) {
        Some(i) => {
            assert(sits(g, open_id, i));
        },
        None => {
            assert forall|i: usize| !sits(g, open_id, i) by {}
        },
    }
}

/// The poker table's players play werewolf, in the same seats, once neither game is being
/// played and there are nine to twelve of them.
pub proof fn who_plays_werewolf(table: GameView, previous: Option<WolfGameView>, played: u32, i: int)
    requires
        0 <= i < table.players.len(),
    ensures
        ({
            let hand = table.stage == Stage::PreFlop || table.stage == Stage::Flop || table.stage == Stage::Turn || table.stage == Stage::River;
            let game = previous matches Some(g) && g.stage != WolfStage::Lobby && g.stage != WolfStage::Ended;
            &&& open_error(table, previous) == (if hand || game {
                Some(WolfError::InPlay)
            } else if 9 <= table.players.len() <= 12 {
                None
            } else {
                Some(WolfError::WrongHeadcount)
            })
        }),
        ({
            let room = room_of(table, played);
            &&& room.players.len() == table.players.len()
            &&& room.players[i].open_id == table.players[i].open_id
            &&& room.players[i].name == table.players[i].name
            &&& room.players[i].is_ai == table.players[i].is_ai
            &&& room.players[i].persona == table.players[i].persona
            &&& room.chat_id == table.chat_id
            &&& room.game_count == played
        }),
{
}

} // verus!
