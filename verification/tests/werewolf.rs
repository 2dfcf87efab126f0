use larkriver::game::{Game, Persona};
use larkriver::poker::DeckMode;
use larkriver::werewolf::cards::{
    build_follow_up, build_news_card, build_seer_result_card, build_speech_public_card, build_vote_tally_card, build_wolf_help_card, SpeechKind,
};
use larkriver::werewolf::clicks::{after_move, toast_for, AfterMove, Finding, WolfMove};
use larkriver::werewolf::prompts::persona_line;
use larkriver::werewolf::room::{open_wolf_game, why_closed};
use larkriver::werewolf::steps::{Drive, Task, WolfStep, MAX_STAGES};
use larkriver::werewolf::table::{roles_for, shuffled_roles};
use larkriver::werewolf::view::{build_view, cause_label_for_view};
use larkriver::werewolf::{DeathCause, RecapEvent, Role, Winner, WolfError, WolfGame, WolfStage};

fn room(n: usize) -> WolfGame {
    let mut g = WolfGame::new("c".into());
    for i in 0..n {
        g.add_player(format!("p{i}"), format!("P{i}")).unwrap();
    }
    g
}

/// Seats 0-2 wolves, 3 seer, 4 witch, 5 hunter, 6-8 villagers.
fn nine() -> WolfGame {
    let mut g = room(9);
    g.start_with(&roles_for(9)).unwrap();
    g
}

/// Seats 0, 1 wolves, 2 wolf king, 3 seer, 4 witch, 5 hunter, 6 guard, 7-9 villagers.
fn ten() -> WolfGame {
    let mut g = room(10);
    g.start_with(&roles_for(10)).unwrap();
    g
}

fn id(i: usize) -> String {
    format!("p{i}")
}

fn wolves_kill(g: &mut WolfGame, target: usize) {
    for w in g.alive_wolves() {
        g.wolf_pick(&id(w), &id(target)).unwrap();
    }
    g.advance_after_wolves().unwrap();
}

/// Everybody who lives keeps silent and votes as told.
fn day_vote(g: &mut WolfGame, votes: &[(usize, Option<usize>)]) {
    while let Some(i) = g.current_day_speaker() {
        g.submit_day_speech(&id(i), String::new()).unwrap();
    }
    g.enter_day_vote().unwrap();
    for (v, t) in votes {
        let target = t.map(id);
        g.cast_vote(&id(*v), target.as_deref()).unwrap();
    }
}

#[test]
fn persona_line_renders() {
    let line = persona_line(Some(Persona::Maniac));
    assert!(line.contains("头铁") || line.contains("Maniac") || line.contains("梭哈"));
}

#[test]
fn persona_line_without_persona() {
    let line = persona_line(None);
    assert!(line.starts_with("## 高玩思考守则"));
    assert!(line.ends_with("你没有特定流派，按一般直觉决策。"));
}

#[test]
fn render_view_shows_role() {
    let mut g = WolfGame::new("c".into());
    for i in 0..9 {
        g.add_player(format!("p{i}"), format!("P{i}")).unwrap();
    }
    g.start_game().unwrap();
    let view = build_view(&g, 0);
    let s = view.render();
    assert!(s.contains("P0"));
    assert!(s.contains("第 1 天"));
}

#[test]
fn a_room_refuses() {
    let mut g = room(8);
    assert_eq!(g.start_game(), Err(WolfError::WrongHeadcount));
    assert_eq!(g.add_player("p0".into(), "again".into()), Err(WolfError::AlreadySeated));
    for i in 8..12 {
        g.add_ai_player(format!("p{i}"), format!("P{i}"), Persona::Maniac).unwrap();
    }
    assert_eq!(g.add_player("p12".into(), "P12".into()), Err(WolfError::RoomFull));
    assert_eq!(WolfError::RoomFull.message(), "房间已满");
    g.start_game().unwrap();
    assert_eq!(g.start_game(), Err(WolfError::InPlay));
    assert_eq!(g.add_player("p13".into(), "P13".into()), Err(WolfError::InPlay));
    assert_eq!(g.game_count, 1);
    assert!(g.is_in_order());
}

#[test]
fn boards_have_their_roles() {
    fn count(roles: &[Role], r: Role) -> usize {
        roles.iter().filter(|x| **x == r).count()
    }
    // wolves, wolf kings, guards, villagers
    let want = [(9, 3, 0, 0, 3), (10, 2, 1, 1, 3), (11, 2, 1, 1, 4), (12, 3, 1, 1, 4)];
    for (n, w, k, gd, v) in want {
        for roles in [roles_for(n), shuffled_roles(n)] {
            assert_eq!(roles.len(), n);
            assert_eq!(count(&roles, Role::Werewolf), w);
            assert_eq!(count(&roles, Role::WolfKing), k);
            assert_eq!(count(&roles, Role::Guard), gd);
            assert_eq!(count(&roles, Role::Villager), v);
            assert_eq!(count(&roles, Role::Seer), 1);
            assert_eq!(count(&roles, Role::Witch), 1);
            assert_eq!(count(&roles, Role::Hunter), 1);
        }
    }
}

#[test]
fn roles_are_dealt_at_random() {
    let first = shuffled_roles(12);
    assert!((0..50).any(|_| shuffled_roles(12) != first));
}

#[test]
fn a_night_without_guard() {
    let mut g = nine();
    assert_eq!(g.stage, WolfStage::WolvesPick);
    assert_eq!(g.day, 1);
    // Not a wolf, not alive, not a target.
    assert_eq!(g.wolf_pick("p3", "p8"), Err(WolfError::NotYours));
    assert_eq!(g.wolf_pick("x", "p8"), Err(WolfError::NotSeated));
    assert_eq!(g.wolf_pick("p0", "p1"), Err(WolfError::BadTarget));
    assert_eq!(g.seer_check("p3", "p0"), Err(WolfError::WrongStage));
    wolves_kill(&mut g, 8);
    assert_eq!(g.night_victim, Some(8));
    assert_eq!(g.stage, WolfStage::SeerPick);
    assert_eq!(g.seer_check("p3", "p3"), Err(WolfError::BadTarget));
    assert_eq!(g.seer_check("p3", "p0"), Ok(true));
    assert_eq!(g.stage, WolfStage::WitchAct);
    assert_eq!(g.witch_act("p4", true, Some("p0")), Err(WolfError::OnlyOnePotion));
    g.witch_act("p4", false, None).unwrap();
    assert_eq!(g.stage, WolfStage::DayReveal);
    assert!(!g.players[8].alive);
    assert_eq!(g.night_deaths, vec![8]);
    assert_eq!(g.event_log, vec!["第 1 夜：P8 死亡".to_string()]);
    g.enter_day_discuss().unwrap();
    // The victim has last words; then, without an election, the talk begins.
    assert_eq!(g.stage, WolfStage::LastWords);
    assert_eq!(g.submit_last_words("p0", "hi".into()), Err(WolfError::NotYourTurn));
    assert_eq!(g.finish_last_words(), Err(WolfError::Unfinished));
    g.submit_last_words("p8", "晚安".into()).unwrap();
    g.finish_last_words().unwrap();
    assert_eq!(g.stage, WolfStage::DayOpen);
    assert!(g.is_in_order());
}

#[test]
fn a_saved_victim_lives() {
    let mut g = nine();
    wolves_kill(&mut g, 8);
    g.seer_check("p3", "p6").unwrap();
    g.witch_act("p4", true, None).unwrap();
    assert!(g.players[8].alive);
    assert_eq!(g.event_log, vec!["第 1 夜：平安夜".to_string()]);
    g.enter_day_discuss().unwrap();
    assert_eq!(g.stage, WolfStage::DayOpen);
}

#[test]
fn guard_and_witch_cancel_out() {
    let mut g = ten();
    assert_eq!(g.stage, WolfStage::GuardPick);
    assert_eq!(g.guard_pick("p0", "p9"), Err(WolfError::NotYours));
    g.guard_pick("p6", "p9").unwrap();
    wolves_kill(&mut g, 9);
    g.seer_check("p3", "p2").unwrap();
    g.witch_act("p4", true, None).unwrap();
    assert!(!g.players[9].alive);
    // The guard alone protects.
    let mut g = ten();
    g.guard_pick("p6", "p9").unwrap();
    wolves_kill(&mut g, 9);
    g.seer_check("p3", "p2").unwrap();
    g.witch_act("p4", false, None).unwrap();
    assert!(g.players[9].alive);
}

#[test]
fn the_wolf_king_shows_as_a_wolf() {
    let mut g = ten();
    g.guard_pick("p6", "p6").unwrap();
    wolves_kill(&mut g, 9);
    assert_eq!(g.seer_check("p3", "p2"), Ok(true));
    let view = build_view(&g, 3);
    assert!(view.render().contains("第 1 夜 · P2 → **狼人**"));
}

#[test]
fn the_poisoned_hunter_does_not_shoot() {
    let mut g = nine();
    wolves_kill(&mut g, 8);
    g.seer_check("p3", "p6").unwrap();
    g.witch_act("p4", false, Some("p5")).unwrap();
    assert!(!g.players[5].alive);
    assert_eq!(g.pending_hunter, None);
    assert_eq!(g.last_words.order, vec![8]);
    assert!(g.witch_poison_used);
    // Struck by the wolves the hunter shoots.
    let mut g = nine();
    wolves_kill(&mut g, 5);
    g.seer_check("p3", "p6").unwrap();
    g.witch_act("p4", false, None).unwrap();
    assert_eq!(g.pending_hunter, Some(5));
    g.enter_day_discuss().unwrap();
    g.submit_last_words("p5", String::new()).unwrap();
    g.finish_last_words().unwrap();
    assert_eq!(g.stage, WolfStage::HunterShoot);
    assert_eq!(g.hunter_shoot("p0", None), Err(WolfError::NotYours));
    assert_eq!(g.hunter_shoot("p5", Some("p5")), Err(WolfError::BadTarget));
    assert_eq!(g.hunter_shoot("p5", Some("p0")), Ok(Some(0)));
    assert!(!g.players[0].alive);
    assert_eq!(g.stage, WolfStage::DayOpen);
}

#[test]
fn potions_are_used_once() {
    let mut g = nine();
    wolves_kill(&mut g, 8);
    g.seer_check("p3", "p6").unwrap();
    g.witch_act("p4", true, None).unwrap();
    g.enter_day_discuss().unwrap();
    g.open_speeches(0).unwrap();
    let all: Vec<(usize, Option<usize>)> = (0..9).map(|i| (i, None)).collect();
    day_vote(&mut g, &all);
    assert_eq!(g.resolve_lynch(), Ok(None));
    g.advance_after_vote().unwrap();
    assert_eq!(g.day, 2);
    assert_eq!(g.stage, WolfStage::WolvesPick);
    wolves_kill(&mut g, 8);
    g.seer_check("p3", "p7").unwrap();
    assert_eq!(g.witch_act("p4", true, None), Err(WolfError::NoSavePotion));
    assert_eq!(g.witch_act("p4", false, Some("p4")), Err(WolfError::BadTarget));
    g.witch_act("p4", false, Some("p0")).unwrap();
    assert!(!g.players[0].alive && !g.players[8].alive);
}

#[test]
fn nobody_to_save() {
    let mut g = nine();
    g.advance_after_wolves().unwrap();
    assert_eq!(g.night_victim, None);
    g.seer_check("p3", "p6").unwrap();
    assert_eq!(g.witch_act("p4", true, None), Err(WolfError::NobodyToSave));
}

#[test]
fn nobody_is_guarded_twice_running() {
    let mut g = ten();
    g.guard_pick("p6", "p6").unwrap();
    wolves_kill(&mut g, 6);
    g.seer_check("p3", "p0").unwrap();
    g.witch_act("p4", false, None).unwrap();
    g.enter_day_discuss().unwrap();
    assert_eq!(g.stage, WolfStage::SheriffNominate);
    for i in 0..10 {
        g.nominate_sheriff(&id(i), false).unwrap();
    }
    g.finish_sheriff_nominate().unwrap();
    g.open_speeches(3).unwrap();
    let all: Vec<(usize, Option<usize>)> = (0..10).map(|i| (i, None)).collect();
    day_vote(&mut g, &all);
    g.conclude().unwrap();
    assert_eq!(g.stage, WolfStage::GuardPick);
    assert_eq!(g.guard_pick("p6", "p6"), Err(WolfError::GuardedLastNight));
    g.guard_pick("p6", "p7").unwrap();
}

#[test]
fn an_election() {
    let mut g = ten();
    g.guard_pick("p6", "p9").unwrap();
    wolves_kill(&mut g, 9);
    g.seer_check("p3", "p0").unwrap();
    g.witch_act("p4", false, None).unwrap();
    g.enter_day_discuss().unwrap();
    assert_eq!(g.finish_sheriff_nominate(), Err(WolfError::Unfinished));
    for i in 0..10 {
        g.nominate_sheriff(&id(i), i == 3 || i == 0).unwrap();
    }
    assert_eq!(g.nominate_sheriff("p1", true), Err(WolfError::AlreadyChosen));
    assert_eq!(g.sheriff_candidates(), vec![0, 3]);
    g.finish_sheriff_nominate().unwrap();
    assert_eq!(g.current_sheriff_speaker(), Some(0));
    assert_eq!(g.submit_sheriff_speech("p3", "x".into()), Err(WolfError::NotYourTurn));
    g.submit_sheriff_speech("p0", "我是好人".into()).unwrap();
    assert_eq!(g.finish_sheriff_speeches(), Err(WolfError::Unfinished));
    g.submit_sheriff_speech("p3", "查杀 0 号".into()).unwrap();
    g.finish_sheriff_speeches().unwrap();
    assert_eq!(g.side_speech.order, vec![1, 2, 4, 5, 6, 7, 8, 9]);
    while let Some(i) = g.current_sheriff_side_speaker() {
        g.submit_sheriff_side_speech(&id(i), String::new()).unwrap();
    }
    g.finish_sheriff_side_speeches().unwrap();
    assert_eq!(g.cast_sheriff_vote("p0", None), Err(WolfError::NotYours));
    assert_eq!(g.cast_sheriff_vote("p1", Some("p2")), Err(WolfError::BadTarget));
    for i in [1, 2, 4, 5, 6, 7, 8] {
        g.cast_sheriff_vote(&id(i), Some(if i < 3 { "p0" } else { "p3" })).unwrap();
    }
    assert!(!g.all_sheriff_voters_cast());
    assert_eq!(g.resolve_sheriff_vote(), Err(WolfError::Unfinished));
    g.cast_sheriff_vote("p9", None).unwrap();
    g.resolve_sheriff_vote().unwrap();
    assert_eq!(g.sheriff_idx, Some(3));
    assert_eq!(g.stage, WolfStage::SheriffPickDirection);
    assert_eq!(g.pick_sheriff_direction("p0", true), Err(WolfError::NotYours));
    let mut h = g.clone();
    g.pick_sheriff_direction("p3", true).unwrap();
    assert_eq!(g.day_speech.order, vec![4, 5, 6, 7, 8, 9, 0, 1, 2, 3]);
    h.pick_sheriff_direction("p3", false).unwrap();
    assert_eq!(h.day_speech.order, vec![2, 1, 0, 9, 8, 7, 6, 5, 4, 3]);
    // The sheriff's vote breaks the tie.
    let mut votes: Vec<(usize, Option<usize>)> = vec![];
    for i in 0..10 {
        votes.push((i, if i == 0 { Some(3) } else if i == 3 { Some(0) } else { None }));
    }
    day_vote(&mut g, &votes);
    assert_eq!(g.resolve_lynch(), Ok(Some(0)));
    // A single candidate is the sheriff at once.
    let mut k = ten();
    k.stage = WolfStage::SheriffNominate;
    for i in 0..10 {
        k.nominate_sheriff(&id(i), i == 7).unwrap();
    }
    k.finish_sheriff_nominate().unwrap();
    assert_eq!(k.sheriff_idx, Some(7));
}

#[test]
fn a_dead_sheriff_hands_the_badge_on() {
    let mut g = ten();
    g.sheriff_idx = Some(2);
    g.sheriff_done = true;
    g.stage = WolfStage::DayVote;
    for i in 0..10 {
        g.cast_vote(&id(i), if i == 2 { None } else { Some("p2") }).unwrap();
    }
    assert_eq!(g.cast_vote("p1", None), Err(WolfError::AlreadyChosen));
    g.conclude().unwrap();
    assert!(!g.players[2].alive);
    assert_eq!(g.stage, WolfStage::LastWords);
    g.submit_last_words("p2", "我是猎人".into()).unwrap();
    g.finish_last_words().unwrap();
    // The wolf king shoots, then the badge goes on, then night falls.
    assert_eq!(g.stage, WolfStage::HunterShoot);
    assert_eq!(g.hunter_shoot("p2", Some("p3")), Ok(Some(3)));
    assert_eq!(g.stage, WolfStage::BadgePass);
    assert_eq!(g.transfer_badge("p2", Some("p3")), Err(WolfError::BadTarget));
    assert_eq!(g.transfer_badge("p2", Some("p4")), Ok(Some(4)));
    assert_eq!(g.sheriff_idx, Some(4));
    assert_eq!(g.stage, WolfStage::GuardPick);
    assert_eq!(g.day, 2);
    let card = build_vote_tally_card(&g);
    assert!(format!("{card:?}").contains("**P2** 被放逐"));
}

#[test]
fn votes_for_oneself_do_not_count() {
    let mut g = nine();
    g.stage = WolfStage::DayVote;
    assert_eq!(g.cast_vote("p0", Some("p0")), Err(WolfError::BadTarget));
    for i in 0..8 {
        g.cast_vote(&id(i), None).unwrap();
    }
    assert_eq!(g.resolve_lynch(), Err(WolfError::Unfinished));
    assert_eq!(g.advance_after_vote(), Err(WolfError::Unfinished));
}

#[test]
fn who_has_won() {
    let mut g = nine();
    assert_eq!(g.victory(), None);
    for i in 0..3 {
        g.players[i].alive = false;
    }
    assert_eq!(g.victory(), Some(Winner::Good));
    let mut g = nine();
    for i in 6..9 {
        g.players[i].alive = false;
    }
    // Three wolves, three others.
    assert_eq!(g.victory(), Some(Winner::Wolves));
    g.players[6].alive = true;
    assert_eq!(g.victory(), None);
}

#[test]
fn wolves_talk_and_lock_their_choice() {
    let mut g = nine();
    g.wolf_say("p0", "刀预言家".into()).unwrap();
    assert_eq!(g.wolf_say("p8", "?".into()), Err(WolfError::NotYours));
    g.wolf_pick("p0", "p3").unwrap();
    g.wolf_pick("p1", "p4").unwrap();
    g.wolf_pick("p0", "p4").unwrap();
    assert_eq!(g.wolf_kill_votes, vec![(1, 4), (0, 4)]);
    g.wolf_mark_ready("p0").unwrap();
    assert!(g.is_wolf_ready(0) && !g.all_alive_wolves_ready());
    assert_eq!(g.wolf_pick("p0", "p3"), Err(WolfError::Locked));
    g.wolf_mark_ready("p1").unwrap();
    g.wolf_mark_ready("p2").unwrap();
    assert!(g.all_alive_wolves_ready());
    g.wolf_pick("p2", "p3").unwrap_err();
    g.advance_after_wolves().unwrap();
    assert_eq!(g.night_victim, Some(4));
}

#[test]
fn of_several_targets_the_first_named_dies() {
    let mut g = nine();
    g.wolf_pick("p2", "p7").unwrap();
    g.wolf_pick("p0", "p8").unwrap();
    g.advance_after_wolves().unwrap();
    assert_eq!(g.night_victim, Some(7));
}

#[test]
fn a_dead_guard_is_skipped() {
    let mut g = ten();
    assert_eq!(g.skip_guard(), Err(WolfError::WrongStage));
    g.players[6].alive = false;
    assert!(matches!(g.next_step(false), WolfStep::SkipGuard));
    g.skip_guard().unwrap();
    assert_eq!(g.stage, WolfStage::WolvesPick);
}

#[test]
fn steps_ask_the_right_ones() {
    let mut g = WolfGame::new("c".into());
    for i in 0..9 {
        if i < 3 || i == 3 {
            g.add_ai_player(id(i), format!("P{i}"), Persona::TightWeak).unwrap();
        } else {
            g.add_player(id(i), format!("P{i}")).unwrap();
        }
    }
    assert!(matches!(g.next_step(false), WolfStep::Rest));
    g.start_with(&roles_for(9)).unwrap();
    // A pack of AI players is asked and done.
    match g.next_step(false) {
        WolfStep::AskAll(seats, Task::Wolf) => assert_eq!(seats, vec![0, 1, 2]),
        other => panic!("{other:?}"),
    }
    assert!(matches!(g.next_step(true), WolfStep::Conclude));
    wolves_kill(&mut g, 8);
    assert!(matches!(g.next_step(false), WolfStep::Ask(3, Task::Seer)));
    g.seer_check("p3", "p0").unwrap();
    assert!(matches!(g.next_step(false), WolfStep::Prompt(4, Task::Witch)));
    g.witch_act("p4", true, None).unwrap();
    assert!(matches!(g.next_step(false), WolfStep::Conclude));
    g.conclude().unwrap();
    assert!(matches!(g.next_step(false), WolfStep::Draw));
    g.draw_first_speaker().unwrap();
    assert_eq!(g.day_speech.order.len(), 9);
    while let Some(i) = g.current_day_speaker() {
        let step = g.next_step(false);
        if i <= 3 {
            assert!(matches!(step, WolfStep::Ask(k, Task::DaySpeech) if k == i));
        } else {
            assert!(matches!(step, WolfStep::Prompt(k, Task::DaySpeech) if k == i));
        }
        g.submit_day_speech(&id(i), String::new()).unwrap();
    }
    g.conclude().unwrap();
    assert!(matches!(g.next_step(false), WolfStep::AskAll(_, Task::Vote)));
    for i in 0..4 {
        g.cast_vote(&id(i), None).unwrap();
    }
    match g.next_step(true) {
        WolfStep::PromptAll(seats, Task::Vote) => assert_eq!(seats, vec![4, 5, 6, 7, 8]),
        other => panic!("{other:?}"),
    }
}

#[test]
fn a_mixed_pack_waits_for_people() {
    let mut g = WolfGame::new("c".into());
    g.add_player(id(0), "P0".into()).unwrap();
    for i in 1..9 {
        g.add_ai_player(id(i), format!("P{i}"), Persona::Maniac).unwrap();
    }
    g.start_with(&roles_for(9)).unwrap();
    match g.next_step(false) {
        WolfStep::Pack(people, ais) => {
            assert_eq!(people, vec![0]);
            assert_eq!(ais, vec![1, 2]);
        }
        other => panic!("{other:?}"),
    }
    assert!(matches!(g.next_step(true), WolfStep::Rest));
    for w in 0..3 {
        g.wolf_mark_ready(&id(w)).unwrap();
    }
    assert!(matches!(g.next_step(true), WolfStep::Conclude));
}

#[test]
fn files_hide_the_night() {
    let mut g = nine();
    wolves_kill(&mut g, 8);
    g.seer_check("p3", "p0").unwrap();
    g.witch_act("p4", false, Some("p7")).unwrap();
    g.recap_log.push(RecapEvent::DayVoteCast { day: 1, voter: 0, target: Some(6) });
    g.recap_log.push(RecapEvent::DaySpeech { day: 1, player: 6, text: "我是民".into() });
    let v = build_view(&g, 6);
    let s = v.render();
    assert!(s.contains("### 8 号 P8（出局）\n  ☠ 【D1 夜】夜里死亡\n"));
    assert!(s.contains("### 7 号 P7（出局）\n  ☠ 【D1 夜】夜里死亡\n"));
    assert!(s.contains("### 6 号 P6（存活）  ← 你\n  【D1 发言】我是民\n"));
    assert!(s.contains("[第 1 天发言] 我是民"));
    assert!(!s.contains("投票 →"));
    assert!(!s.contains("狼队友"));
    assert!(!s.contains("查验记录"));
    // Once the votes are counted they show.
    g.recap_log.push(RecapEvent::DayLynch { day: 1, target: None });
    assert!(build_view(&g, 6).render().contains("【D1 投票 →】6 号 P6"));
}

#[test]
fn files_show_shots_badges_and_last_words() {
    let mut g = ten();
    g.recap_log.push(RecapEvent::HunterShot { day: 1, shooter: 5, target: None });
    g.recap_log.push(RecapEvent::HunterShot { day: 2, shooter: 5, target: Some(20) });
    g.recap_log.push(RecapEvent::BadgePass { day: 1, from: 3, to: Some(4) });
    g.recap_log.push(RecapEvent::BadgePass { day: 2, from: 4, to: None });
    g.recap_log.push(RecapEvent::LastWords { day: 1, night: true, player: 9, text: "a".into() });
    g.recap_log.push(RecapEvent::LastWords { day: 1, night: false, player: 9, text: "b".into() });
    g.recap_log.push(RecapEvent::SheriffSpeech { player: 9, text: "c".into() });
    g.recap_log.push(RecapEvent::SheriffSideSpeech { player: 9, text: "d".into() });
    g.recap_log.push(RecapEvent::Death { day: 1, night: false, player: 9, cause: DeathCause::Lynch });
    let v = build_view(&g, 9);
    let d = v.build_dossiers();
    assert_eq!(d[5].3, vec!["【D1 临死开枪】选择不开枪", "【D2 临死开枪】带走 20 号 ?"]);
    assert_eq!(d[3].3, vec!["【D1 警徽】传给 4 号 P4"]);
    assert_eq!(d[4].3, vec!["【D2 警徽】撕毁"]);
    assert_eq!(
        d[9].3,
        vec!["☠ 【D1 白天】放逐", "【D1 夜遗言】a", "【D1 放逐遗言】b", "【上警发言】c", "【警下发言】d"]
    );
    assert_eq!(v.my_statements, vec!["[遗言] a", "[遗言] b", "[上警发言] c", "[警下发言] d"]);
    assert_eq!(v.player_name(4), Some("P4"));
    assert_eq!(v.player_name(40), None);
}

#[test]
fn files_come_by_seat() {
    let mut g = ten();
    g.recap_log.push(RecapEvent::SheriffSpeech { player: 9, text: "c".into() });
    g.recap_log.push(RecapEvent::SheriffSpeech { player: 3, text: "d".into() });
    let mut v = build_view(&g, 9);
    let told = v.render();
    assert!(told.find("### 3 号 P3").unwrap() < told.find("### 9 号 P9").unwrap());
    // The list may be in any order, and a seat that is listed twice has one file.
    v.players.reverse();
    v.players.push((9, "again".into(), false));
    let d = v.build_dossiers();
    assert_eq!(d.iter().map(|x| x.0).collect::<Vec<_>>(), vec![0, 1, 2, 3, 4, 5, 6, 7, 8, 9, 9]);
    assert_eq!(d[3].3, vec!["【上警发言】d"]);
    assert_eq!((d[9].1.as_str(), d[9].3.len()), ("P9", 1));
    assert_eq!((d[10].1.as_str(), d[10].3.len()), ("again", 0));
}

#[test]
fn causes_of_death() {
    assert_eq!(cause_label_for_view(DeathCause::WolfKill, true), "夜里死亡");
    assert_eq!(cause_label_for_view(DeathCause::Poison, true), "夜里死亡");
    assert_eq!(cause_label_for_view(DeathCause::Shot, true), "开枪");
    assert_eq!(cause_label_for_view(DeathCause::Lynch, false), "放逐");
}

#[test]
fn wolves_see_their_mates() {
    let g = ten();
    let s = build_view(&g, 0).render();
    assert!(s.contains("【狼队友】1 号 P1 (狼人)、2 号 P2 (狼王)\n"));
    assert!(s.starts_with("## 局面\n第 1 天 · 阶段：守卫行动\n你是 **0 号位 P0**，身份 **狼人**\n存活：0 号 P0 · "));
}

#[test]
fn moves_go_through_one_door() {
    let mut g = nine();
    assert_eq!(g.make_move("p0", WolfMove::Kill("p8".into())), Ok(Finding::Nothing));
    assert_eq!(g.make_move("p0", WolfMove::Ready), Ok(Finding::Nothing));
    assert_eq!(g.make_move("p8", WolfMove::Ready), Err(WolfError::NotYours));
    g.conclude().unwrap();
    assert_eq!(g.make_move("p3", WolfMove::Check("p0".into())), Ok(Finding::Wolf(true)));
    assert_eq!(g.make_move("p4", WolfMove::Witch(false, None)), Ok(Finding::Nothing));
    assert_eq!(toast_for(&WolfMove::Witch(false, None)), Some("已确认"));
    assert_eq!(toast_for(&WolfMove::Vote(None)), Some("已弃权"));
    assert_eq!(toast_for(&WolfMove::Nominate(true)), Some("已上警"));
    assert_eq!(toast_for(&WolfMove::Badge(None)), None);
}

#[test]
fn cards_of_the_room() {
    let help = build_wolf_help_card();
    assert!(format!("{help:?}").contains("存活狼数 ≥ 存活好人数 = 狼胜"));
    let mut g = nine();
    g.stage = WolfStage::DayOpen;
    g.open_speeches(2).unwrap();
    g.submit_day_speech("p2", "大家好".into()).unwrap();
    g.submit_day_speech("p3", String::new()).unwrap();
    let card = format!("{:?}", build_speech_public_card(&g, SpeechKind::Day));
    assert!(card.contains("**P2**：大家好\\n**P3**：（沉默）\\n🎤 正在发言：**P4**"));
}

#[test]
fn a_broken_record_is_noticed() {
    let mut g = nine();
    assert!(g.is_in_order());
    g.sheriff_idx = Some(9);
    assert!(!g.is_in_order());
    g.sheriff_idx = None;
    g.players[1].open_id = "p0".into();
    assert!(!g.is_in_order());
}

#[test]
fn the_dead_do_not_act() {
    let mut g = nine();
    g.players[0].alive = false;
    assert_eq!(g.wolf_pick("p0", "p8"), Err(WolfError::NotYours));
    assert_eq!(g.wolf_pick("p1", "p0"), Err(WolfError::BadTarget));
    assert_eq!(g.alive_wolves(), vec![1, 2]);
    assert_eq!(g.alive_indices(), vec![1, 2, 3, 4, 5, 6, 7, 8]);
    assert_eq!(g.role_idx(Role::Guard), None);
    assert_eq!(g.find_player("p7"), Some(7));
}

#[test]
fn the_roster_is_shared() {
    let mut table = Game::new("c".into());
    for i in 0..8 {
        table.add_player(format!("p{i}"), format!("P{i}")).unwrap();
    }
    assert_eq!(open_wolf_game(&table, None).unwrap_err(), WolfError::WrongHeadcount);
    table.add_ai_player("ai:1".into(), "AI".into(), Persona::Maniac).unwrap();
    let g = open_wolf_game(&table, None).unwrap();
    assert_eq!((g.chat_id.as_str(), g.players.len(), g.game_count), ("c", 9, 1));
    assert!(g.players[8].is_ai && g.players[8].persona == Some(Persona::Maniac));
    assert!(g.players.iter().all(|p| p.alive && p.role.is_some()));
    // One game at a time, of either kind.
    assert_eq!(open_wolf_game(&table, Some(&g)).unwrap_err(), WolfError::InPlay);
    let mut over = g.clone();
    over.stage = WolfStage::Ended;
    assert_eq!(open_wolf_game(&table, Some(&over)).unwrap().game_count, 2);
    table.start_hand(DeckMode::Standard).unwrap();
    assert_eq!(open_wolf_game(&table, None).unwrap_err(), WolfError::InPlay);
}

#[test]
fn the_news() {
    let mut g = WolfGame::new("c".into());
    assert!(build_news_card(&g, 0).is_none());
    g.event_log = vec!["一".into(), "二".into(), "三".into()];
    assert!(format!("{:?}", build_news_card(&g, 1).unwrap()).contains("\"二\\n三\""));
    assert!(build_news_card(&g, 3).is_none());
    assert!(format!("{:?}", build_seer_result_card("P1", true)).contains("**P1** 是 **狼人**"));
    assert!(format!("{:?}", build_seer_result_card("P1", false)).contains("**P1** 是 **好人**"));
}

#[test]
fn what_follows_a_change() {
    let mut g = nine();
    let told = g.event_log.len();
    assert!(build_follow_up(g.stage, told, &g).is_empty());
    g.stage = WolfStage::DayVote;
    let cards = build_follow_up(WolfStage::DaySpeech, told, &g);
    assert_eq!(cards.len(), 1);
    assert!(format!("{:?}", cards[0]).contains("投票开始"));
    assert!(build_follow_up(WolfStage::DayVote, told, &g).is_empty());
    for i in 0..3 {
        g.players[i].alive = false;
    }
    g.stage = WolfStage::Ended;
    g.event_log.push("狼人全部出局".into());
    let cards = build_follow_up(WolfStage::DayVote, told, &g);
    assert_eq!(cards.len(), 3);
    assert!(format!("{:?}", cards[0]).contains("投票结果"));
    assert!(format!("{:?}", cards[1]).contains("狼人全部出局"));
    assert!(format!("{:?}", cards[2]).contains("P3：预言家"));
    assert!(matches!(SpeechKind::of_stage(WolfStage::DaySpeech), Some(SpeechKind::Day)));
    assert!(SpeechKind::of_stage(WolfStage::DayVote).is_none());
}

#[test]
fn what_follows_a_move() {
    let talk = AfterMove { refresh_pack: true, advance: false };
    assert_eq!(after_move(&WolfMove::Say("嗨".into())), talk);
    let pack = AfterMove { refresh_pack: true, advance: true };
    assert_eq!(after_move(&WolfMove::Kill("p4".into())), pack);
    assert_eq!(after_move(&WolfMove::Ready), pack);
    assert_eq!(after_move(&WolfMove::Vote(None)), AfterMove { refresh_pack: false, advance: true });
}

#[test]
fn a_drive_ends() {
    let mut d = Drive::new();
    assert_eq!((d.stages_left, d.asked), (MAX_STAGES, false));
    let mut steps = 0;
    while let Some(asked) = d.go_on() {
        // Those who are asked act, and what they did is concluded.
        assert_eq!(asked, steps % 2 == 1);
        let step = if asked { WolfStep::Conclude } else { WolfStep::AskAll(vec![0], Task::Vote) };
        d.note(&step);
        steps += 1;
    }
    assert_eq!(steps, 100);
    assert_eq!(d.go_on(), None);
}

#[test]
fn the_table_is_closed_during_the_game() {
    assert_eq!(why_closed(None), None);
    let mut g = ten();
    assert_eq!(why_closed(Some(&g)), Some(WolfError::InPlay));
    g.stage = WolfStage::Ended;
    assert_eq!(why_closed(Some(&g)), None);
}

#[test]
fn candidates_live() {
    let mut g = ten();
    g.stage = WolfStage::SheriffVote;
    g.sheriff_nominations = vec![(3, true), (4, false)];
    assert!(g.is_in_order());
    g.players[3].alive = false;
    assert!(!g.is_in_order());
    // Nobody runs before the election.
    let mut g = ten();
    g.sheriff_nominations = vec![(3, true)];
    assert!(!g.is_in_order());
    g.sheriff_done = true;
    assert!(g.is_in_order());
}
