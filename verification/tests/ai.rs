use larkriver::game::{Persona, PlayerAction};
use larkriver::llm::{
    build_prompt, clamp_action, clamp_to_legal, decide, fallback_action, system_prompt, DecisionContext, RawDecision,
};
use larkriver::poker::{Card, DeckMode, Rank, Suit};
use larkriver::werewolf::decisions::{
    badge_pass, day_speech, dying_hunter_combined, guard_pick, guard_without_model, hunter_pick, last_words, seer_default,
    seer_pick, sheriff_direction, sheriff_vote_without_model, sheriff_run, sheriff_side_speech, sheriff_speech, sheriff_vote, vote_pick, witch_decide,
    wolf_default, wolf_pick, DyingReply, WitchDecision, WitchReply, WolfPickDecision, WolfPickReply,
};
use larkriver::werewolf::prompts::{
    badge_question, chat_with_history, day_speech_question, direction_question, dying_question, guard_question,
    hunter_question, last_words_question, run_question, seer_question, sheriff_speech_question, sheriff_vote_question,
    side_speech_question, vote_question, witch_question, wolf_question, RULES,
};
use larkriver::werewolf::steps::Task;
use larkriver::werewolf::table::roles_for;
use larkriver::werewolf::turns::Reply;
use larkriver::werewolf::view::build_view;
use larkriver::werewolf::{WolfGame, WolfStage};

fn context() -> DecisionContext {
    DecisionContext {
        mode: DeckMode::Standard,
        stage: "翻牌".into(),
        hand_count: 3,
        pot: 60,
        current_bet: 20,
        big_blind: 10,
        my_name: "AI".into(),
        my_stack: 500,
        my_bet_in_round: 0,
        to_call: 20,
        my_max_to: 500,
        min_raise_to: 40,
        hole: vec![Card { rank: Rank(14), suit: Suit::Spades }, Card { rank: Rank(13), suit: Suit::Spades }],
        community: vec![],
        equity: Some(64),
        persona: Some(Persona::TightWeak),
        others: vec!["Bob: 480".into()],
        history: vec![],
    }
}

fn raw(action: &str, raise_to: Option<u64>) -> RawDecision {
    RawDecision { action: action.into(), raise_to, quip: None }
}

#[test]
fn answers_are_clamped() {
    let c = context();
    assert_eq!(clamp_to_legal(&raw("FOLD", None), &c), PlayerAction::Fold);
    assert_eq!(clamp_to_legal(&raw("check", None), &c), PlayerAction::Fold);
    assert_eq!(clamp_to_legal(&raw("Call", None), &c), PlayerAction::Call);
    assert_eq!(clamp_to_legal(&raw("raise", Some(10)), &c), PlayerAction::RaiseTo(40));
    assert_eq!(clamp_to_legal(&raw("bet", Some(120)), &c), PlayerAction::RaiseTo(120));
    assert_eq!(clamp_to_legal(&raw("raise", Some(9999)), &c), PlayerAction::AllIn);
    assert_eq!(clamp_to_legal(&raw("All-In", None), &c), PlayerAction::AllIn);
    assert_eq!(clamp_action("dance", None, &c), PlayerAction::Fold);
    let mut free = context();
    free.to_call = 0;
    assert_eq!(clamp_to_legal(&raw("fold", None), &free), PlayerAction::Check);
    assert_eq!(clamp_to_legal(&raw("call", None), &free), PlayerAction::Check);
    assert_eq!(fallback_action(&free), PlayerAction::Check);
    let mut short = context();
    short.my_stack = 15;
    assert_eq!(clamp_to_legal(&raw("call", None), &short), PlayerAction::AllIn);
}

#[test]
fn silence_is_safe() {
    let c = context();
    let d = decide(None, &c);
    assert_eq!(d.action, PlayerAction::Fold);
    assert_eq!(d.quip, None);
    let d = decide(Some(&RawDecision { action: "call".into(), raise_to: None, quip: Some("  嗯 跟 ".into()) }), &c);
    assert_eq!(d.action, PlayerAction::Call);
    assert_eq!(d.quip.as_deref(), Some("嗯 跟"));
    let d = decide(Some(&RawDecision { action: "call".into(), raise_to: None, quip: Some("   ".into()) }), &c);
    assert_eq!(d.quip, None);
}

#[test]
fn the_table_is_told() {
    let p = build_prompt(&context());
    assert!(p.contains("模式: 标准 (52 张)\n阶段: 翻牌 (第 3 局)\n底池: 60 | 当前下注: 20 | 大盲: 10\n公共牌: （暂无）"));
    assert!(p.contains("手牌: A♠ K♠"));
    assert!(p.contains("胜率 (Monte Carlo, vs 随机对手): 64%"));
    assert!(p.contains("合法加注金额范围: 40 ≤ raise_to ≤ 500"));
    assert!(p.ends_with("## 本手行动历史\n  （本手尚无行动）"));
    assert!(system_prompt(Some(Persona::TightWeak)).contains("**老抠** —— 一毛不拔型"));
    assert!(system_prompt(None).contains("群里普通玩家"));
}

// ---- werewolf ----

fn id(i: usize) -> String {
    format!("p{i}")
}

fn game() -> WolfGame {
    let mut g = WolfGame::new("c".into());
    for i in 0..10 {
        g.add_ai_player(id(i), format!("P{i}"), Persona::Maniac).unwrap();
    }
    g.start_with(&roles_for(10)).unwrap();
    g
}

#[test]
fn a_wolf_is_asked_and_answers() {
    let mut g = game();
    g.stage = WolfStage::WolvesPick;
    g.wolf_pick("p1", "p9").unwrap();
    g.wolf_say("p1", "刀 9".into()).unwrap();
    let v = build_view(&g, 0);
    let q = wolf_question(&v, &g, true, &vec![]).unwrap();
    assert_eq!(q.len(), 2);
    assert_eq!(q[0].0, "system");
    assert!(q[0].1.contains("扮演**狼人**"));
    assert!(q[0].1.contains("狼频道发言（仅狼可见）"));
    assert!(q[0].1.ends_with("返回 JSON: {\"target_idx\": <整数>, \"chat\": \"<≤30 字发言, 不想说就 null>\", \"thinking\": \"...\"}"));
    assert!(q[1].1.contains("## 候选目标（仅这些 idx 是合法的）\n3 = P3\n4 = P4"));
    assert!(q[1].1.ends_with("队友进度：\nP1 选择杀 P9\n\n狼频道历史：\nP1: 刀 9"));
    let quiet = wolf_question(&v, &g, false, &vec![]).unwrap();
    assert!(!quiet[0].1.contains("狼频道发言"));
    let long: String = "啊".repeat(100);
    let d = wolf_pick(&v, &g, true, &Some(WolfPickReply { target_idx: 5, chat: Some(format!("  {long}  ")) }));
    assert_eq!(d.target_idx, 5);
    assert_eq!(d.chat.unwrap().chars().count(), 60);
    // A wolf is no target; the first who can be killed is.
    let d = wolf_pick(&v, &g, false, &Some(WolfPickReply { target_idx: 2, chat: Some("x".into()) }));
    assert_eq!(d.target_idx, 3);
    assert_eq!(d.chat, None);
    assert_eq!(wolf_pick(&v, &g, true, &None).target_idx, 3);
    assert_eq!(wolf_default(&g), 3);
    // Nobody is left to kill.
    for i in 3..10 {
        g.players[i].alive = false;
    }
    let v = build_view(&g, 0);
    assert!(wolf_question(&v, &g, true, &vec![]).is_none());
    assert_eq!(wolf_pick(&v, &g, true, &None).target_idx, 0);
}

#[test]
fn the_seer_prefers_somebody_new() {
    let mut g = game();
    g.guard_pick("p6", "p6").unwrap();
    g.advance_after_wolves().unwrap();
    let v = build_view(&g, 3);
    assert!(seer_question(&v, &vec![]).unwrap()[1].1.contains("## 候选目标（仅这些 idx 合法）\n0 = P0\n"));
    assert_eq!(seer_pick(&v, Some(7)), 7);
    assert_eq!(seer_pick(&v, Some(3)), 0);
    assert_eq!(seer_pick(&v, None), 0);
    g.seer_check("p3", "p0").unwrap();
    let v = build_view(&g, 3);
    assert_eq!(seer_pick(&v, None), 1);
    assert_eq!(seer_default(&g, 0), 1);
}

#[test]
fn the_witch_answers() {
    let mut g = game();
    g.stage = WolfStage::WitchAct;
    g.night_victim = Some(9);
    let v = build_view(&g, 4);
    let q = witch_question(&v, &g, &vec![]);
    assert!(q[1].1.contains("今晚狼刀目标：P9\n\n药剂状态：救药 ✓ 可用 · 毒药 ✓ 可用\n\n## 毒药候选目标（仅这些 idx 合法）\n0 = P0"));
    let say = |a: &str, t: Option<usize>| Some(WitchReply { action: a.into(), poison_target_idx: t });
    assert_eq!(witch_decide(&v, &g, &say("SAVE", None)), WitchDecision::Save);
    assert_eq!(witch_decide(&v, &g, &say("poison", Some(0))), WitchDecision::Poison(0));
    assert_eq!(witch_decide(&v, &g, &say("poison", Some(4))), WitchDecision::Skip);
    assert_eq!(witch_decide(&v, &g, &say("poison", None)), WitchDecision::Skip);
    assert_eq!(witch_decide(&v, &g, &say("dance", None)), WitchDecision::Skip);
    assert_eq!(witch_decide(&v, &g, &None), WitchDecision::Skip);
    g.witch_save_used = true;
    g.witch_poison_used = true;
    let v = build_view(&g, 4);
    assert_eq!(witch_decide(&v, &g, &say("save", None)), WitchDecision::Skip);
    assert_eq!(witch_decide(&v, &g, &say("poison", Some(0))), WitchDecision::Skip);
    g.night_victim = None;
    let v = build_view(&g, 4);
    assert!(witch_question(&v, &g, &vec![])[1].1.contains("今晚狼人空刀，没人需要救\n\n药剂状态：救药 ✗ 已用"));
}

#[test]
fn the_guard_answers() {
    let mut g = game();
    let v = build_view(&g, 6);
    assert!(guard_question(&v, &g, &vec![]).unwrap()[1].1.contains("（首夜，无限制）"));
    assert_eq!(guard_pick(&v, &g, Some(2)), 2);
    assert_eq!(guard_pick(&v, &g, None), 6);
    assert_eq!(guard_without_model(&g, 6), 6);
    g.last_guard_target = Some(6);
    let v = build_view(&g, 6);
    assert!(guard_question(&v, &g, &vec![]).unwrap()[1].1.contains("（昨夜守过：P6，本夜不可再守）"));
    assert_eq!(guard_pick(&v, &g, Some(6)), 0);
    assert_eq!(guard_without_model(&g, 6), 0);
}

#[test]
fn choices_of_the_day() {
    let g = game();
    let v = build_view(&g, 3);
    assert!(vote_question(&v, &vec![])[1].1.ends_with("9 = P9\n-1 = 弃权"));
    assert_eq!(vote_pick(&v, Some(0)).target_idx, Some(0));
    assert_eq!(vote_pick(&v, Some(3)).target_idx, None);
    assert_eq!(vote_pick(&v, Some(-1)).target_idx, None);
    assert_eq!(vote_pick(&v, Some(99)).target_idx, None);
    assert_eq!(vote_pick(&v, None).target_idx, None);
    assert!(hunter_question(&v, &vec![]).unwrap()[1].1.ends_with("-1 = 不开枪"));
    assert_eq!(hunter_pick(&v, Some(1)), Some(1));
    assert_eq!(hunter_pick(&v, None), None);
    assert!(badge_question(&v, &vec![]).unwrap()[1].1.ends_with("-1 = 撕毁警徽"));
    assert_eq!(badge_pass(&v, Some(2)), Some(2));
    assert!(sheriff_run(&v, None));
    assert!(!sheriff_run(&build_view(&g, 0), None));
    assert!(sheriff_run(&build_view(&g, 0), Some(true)));
    let candidates = vec![(1usize, "P1".to_string()), (4, "P4".to_string())];
    assert!(sheriff_vote_question(&v, &candidates, &vec![]).unwrap()[1].1.ends_with("## 警长候选人（仅这些 idx 合法）\n1 = P1\n4 = P4"));
    assert!(sheriff_vote_question(&v, &vec![], &vec![]).is_none());
    assert_eq!(sheriff_vote(&candidates, Some(4)), Some(4));
    assert_eq!(sheriff_vote(&candidates, Some(2)), None);
    assert_eq!(sheriff_vote_without_model(&candidates), Some(1));
    assert_eq!(sheriff_vote_without_model(&vec![]), None);
    assert!(sheriff_direction(None));
    assert!(!sheriff_direction(Some(false)));
}

#[test]
fn speeches_are_cut() {
    let long = Some(Some("长".repeat(300)));
    assert_eq!(sheriff_speech(&long).chars().count(), 200);
    assert_eq!(sheriff_side_speech(&long).chars().count(), 150);
    assert_eq!(last_words(&long).chars().count(), 250);
    assert_eq!(day_speech(&long).chars().count(), 200);
    assert_eq!(sheriff_speech(&None), "我先表态。");
    assert_eq!(sheriff_speech(&Some(Some("  ".into()))), "我支持平和过渡，先听其他玩家。");
    assert_eq!(day_speech(&Some(None)), "");
    assert_eq!(day_speech(&Some(Some(" 我是民 ".into()))), "我是民");
}

#[test]
fn last_words_and_shot_come_together() {
    let mut g = game();
    g.players[5].alive = false;
    let v = build_view(&g, 5);
    let d = dying_hunter_combined(&v, &Some(DyingReply { speech: Some("带走 0 号".into()), target_idx: Some(0) }));
    assert_eq!(d.speech, "带走 0 号");
    assert_eq!(d.target, Some(0));
    let d = dying_hunter_combined(&v, &Some(DyingReply { speech: None, target_idx: Some(-1) }));
    assert_eq!((d.speech.as_str(), d.target), ("", None));
    let d = dying_hunter_combined(&v, &None);
    assert_eq!((d.speech.as_str(), d.target), ("", None));
    assert!(dying_question(&v, &vec![])[0].1.contains("遗言和开枪决策必须一致"));
}

#[test]
fn every_question_names_role_side_and_rules() {
    let g = game();
    let v = build_view(&g, 2);
    for q in [
        run_question(&v),
        sheriff_speech_question(&v),
        side_speech_question(&v),
        direction_question(&v),
        last_words_question(&v),
        day_speech_question(&v),
        vote_question(&v, &vec![]),
    ] {
        assert!(q[0].1.contains("你的真实身份是 **狼王**。你的阵营是狼。"));
        assert!(q[0].1.contains(RULES));
        assert!(!q[0].1.contains("{}"));
        assert!(q[1].1.starts_with("## 局面"));
    }
    assert!(vote_question(&v, &vec![])[0].1.contains("**你是 狼王（头铁 流派）**"));
}

#[test]
fn refused_attempts_are_told() {
    let history = vec![("{\"target_idx\": 9}".to_string(), "目标已出局".to_string())];
    let m = chat_with_history("s".into(), "u".into(), &history);
    assert_eq!(m.len(), 4);
    assert_eq!(m[2], ("assistant".to_string(), "{\"target_idx\": 9}".to_string()));
    assert_eq!(m[3].0, "user");
    assert_eq!(
        m[3].1,
        "⚠️ 上面的答案不合法：目标已出局\n请基于这个反馈**重新选择一个合法的答案**，仅返回新的 JSON 对象。"
    );
}

#[test]
fn decisions_are_carried_out() {
    let mut g = game();
    // The guard's own fallback when the choice is refused.
    g.last_guard_target = Some(0);
    g.play_guard(6, 0);
    assert_eq!(g.guard_target, Some(6));
    assert_eq!(g.stage, WolfStage::WolvesPick);
    g.play_wolf(0, WolfPickDecision { target_idx: 9, chat: Some("走".into()) }, true);
    assert_eq!(g.wolf_kill_votes, vec![(0, 9)]);
    assert_eq!(g.wolf_chat, vec![(0, "走".to_string())]);
    assert!(g.is_wolf_ready(0));
    g.play_wolf(1, WolfPickDecision { target_idx: 9, chat: Some("x".into()) }, false);
    assert!(!g.is_wolf_ready(1));
    g.advance_after_wolves().unwrap();
    g.seer_check("p3", "p0").unwrap();
    g.witch_save_used = true;
    g.play_witch(4, WitchDecision::Save);
    assert_eq!(g.stage, WolfStage::DayReveal);
    assert!(!g.players[9].alive);
}

#[test]
fn turns_without_a_model() {
    let mut g = game();
    assert!(g.can_ask(6) && !g.can_ask(10));
    g.play_turn(6, Task::Guard, false, false, &Reply::Nothing);
    assert_eq!((g.guard_target, g.stage), (Some(6), WolfStage::WolvesPick));
    for w in 0..3 {
        g.play_turn(w, Task::Wolf, false, false, &Reply::Nothing);
    }
    assert_eq!(g.wolf_kill_votes, vec![(0, 3), (1, 3), (2, 3)]);
    g.conclude().unwrap();
    g.play_turn(3, Task::Seer, false, false, &Reply::Nothing);
    assert_eq!((g.seer_history[0].target_idx, g.seer_history[0].is_wolf), (0, true));
    g.play_turn(4, Task::Witch, false, false, &Reply::Nothing);
    assert_eq!(g.stage, WolfStage::DayReveal);
    assert!(!g.players[3].alive);
}

#[test]
fn turns_with_a_model() {
    let mut g = game();
    g.play_turn(6, Task::Guard, false, true, &Reply::Seat(9));
    assert_eq!(g.guard_target, Some(9));
    g.play_turn(0, Task::Wolf, true, true, &Reply::Wolf(WolfPickReply { target_idx: 9, chat: Some("刀 9".into()) }));
    assert_eq!((g.wolf_kill_votes.clone(), g.wolf_chat.clone()), (vec![(0, 9)], vec![(0, "刀 9".to_string())]));
    assert!(g.is_wolf_ready(0));
    // An answer of another kind is none.
    g.play_turn(1, Task::Wolf, false, true, &Reply::Seat(9));
    assert_eq!(g.wolf_kill_votes[1], (1, 3));
    g.stage = WolfStage::SeerPick;
    g.play_turn(3, Task::Seer, false, true, &Reply::Seat(2));
    assert_eq!(g.seer_history[0].target_idx, 2);
    g.night_victim = Some(9);
    g.stage = WolfStage::WitchAct;
    let mut h = g.clone();
    g.play_turn(4, Task::Witch, false, true, &Reply::Witch(WitchReply { action: "poison".into(), poison_target_idx: Some(0) }));
    assert!(g.witch_poison_used && !g.players[0].alive);
    h.play_turn(4, Task::Witch, false, true, &Reply::Witch(WitchReply { action: "save".into(), poison_target_idx: None }));
    assert!(h.witch_save_used);
    g.stage = WolfStage::SheriffNominate;
    g.play_turn(1, Task::Run, false, true, &Reply::Run(true));
    g.play_turn(3, Task::Run, false, true, &Reply::Nothing);
    g.play_turn(5, Task::Run, false, true, &Reply::Nothing);
    assert_eq!(g.sheriff_nominations, vec![(1, true), (3, true), (5, false)]);
    assert_eq!(g.list_candidates(), vec![(1, "P1".to_string()), (3, "P3".to_string())]);
    g.stage = WolfStage::SheriffVote;
    g.play_turn(5, Task::SheriffVote, false, true, &Reply::Choice(3));
    g.play_turn(6, Task::SheriffVote, false, true, &Reply::Choice(7));
    g.play_turn(7, Task::SheriffVote, false, false, &Reply::Nothing);
    assert_eq!(g.sheriff_votes, vec![(5, Some(3)), (6, None), (7, Some(1))]);
    g.stage = WolfStage::DayVote;
    g.play_turn(5, Task::Vote, false, true, &Reply::Choice(1));
    g.play_turn(6, Task::Vote, false, true, &Reply::Choice(-1));
    assert_eq!(g.day_votes, vec![(5, Some(1)), (6, None)]);
}

#[test]
fn questions_of_all_tasks() {
    let g = game();
    for (seat, task, part) in [
        (6, Task::Guard, "守卫"),
        (0, Task::Wolf, "狼人"),
        (3, Task::Seer, "预言家"),
        (4, Task::Witch, "女巫"),
        (5, Task::Shot, "猎人"),
        (5, Task::Badge, "警徽"),
        (5, Task::Run, "上警"),
        (5, Task::LastWords, "遗言"),
        (5, Task::SheriffSpeech, "上警"),
        (5, Task::SideSpeech, "警"),
        (5, Task::Direction, "clockwise"),
        (5, Task::DaySpeech, "发言"),
        (5, Task::Vote, "投票"),
    ] {
        let q = g.question_for(seat, task, false).unwrap();
        assert_eq!((q.len(), q[0].0.as_str(), q[1].0.as_str()), (2, "system", "user"));
        assert!(q[0].1.contains(part), "{task:?}");
    }
    assert!(g.question_for(5, Task::SheriffVote, false).is_none());
}
