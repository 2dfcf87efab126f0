use larkriver::bot::cards::{build_chips_card, build_hand_start_card, build_lobby_card, build_state_card, build_welcome_card, toast};
use larkriver::bot::clicks::{click_chat, play, read_click, Click, LobbyClick};
use larkriver::bot::context::{count_opponents, decision_context};
use larkriver::bot::commands::{parse_command, read_command, Command, Namespace};
use larkriver::bot::dedup::{RecentClicks, SeenEvents};
use larkriver::bot::mocks::{build_label_card, mock_cards, mock_summary};
use larkriver::bot::outcome::{after_action, next_actor, outcome_cards, ActorStep, AfterAction};
use larkriver::bot::raises::raise_presets;
use larkriver::bot::snapshot::{snapshot, snapshot_for};
use larkriver::bot::tables::{chat_allowed, command_of, dealt_hands, RoomError, Tables};
use larkriver::feishu::cards::submit_button;
use larkriver::feishu::client::{
    delete_body, ephemeral_body, members_url, message_body, message_url, read_done, read_members, read_message_id, read_token,
    read_user_name, token_request, update_body, update_url, user_url, ApiError,
};
use larkriver::feishu::events::{
    parse_card_action, parse_inbound_message, parse_member_added, CardAction, InboundMessage, Mention,
};
use larkriver::feishu::json::Json;
use larkriver::game::{Game, GameError, Persona, PlayerAction, Stage};
use larkriver::poker::DeckMode;
use larkriver::server::{challenge_reply, error_reply, route_card, route_event, CardRequest, EventRequest};
use larkriver::werewolf::clicks::{read_wolf_click, WolfClick, WolfMove};
use larkriver::werewolf::{WolfGame, WolfStage};

fn obj() -> Json {
    Json::object()
}

fn text(s: &str) -> Json {
    Json::text(s)
}

// ---- commands ----

#[test]
fn keywords() {
    assert_eq!(parse_command("/poker join", &[], "", false), Some(Command::Join));
    assert_eq!(parse_command("  /poker START short", &[], "", false), Some(Command::Start(DeckMode::ShortDeck)));
    assert_eq!(parse_command("/poker 开始", &[], "", false), Some(Command::Start(DeckMode::Standard)));
    assert_eq!(parse_command("/wolf start", &[], "", false), Some(Command::WolfStart));
    assert_eq!(parse_command("/wolf 帮助", &[], "", false), Some(Command::WolfHelp));
    assert_eq!(parse_command("/wolf chips", &[], "", false), None);
    assert_eq!(parse_command("join", &[], "", false), None);
    assert_eq!(parse_command("join", &[], "", true), Some(Command::Join));
    let bot = [Mention { key: "@_user_1".into(), open_id: "ou_bot".into() }];
    assert_eq!(parse_command("@_user_1 筹码", &bot, "ou_bot", false), Some(Command::Chips));
    assert_eq!(parse_command("@_user_1 狼 开始", &bot, "ou_bot", false), Some(Command::WolfStart));
    assert_eq!(parse_command("@_user_1 筹码", &bot, "ou_other", false), None);
    assert_eq!(read_command(Namespace::Mention, "wolf leave"), Some(Command::Leave));
    assert_eq!(read_command(Namespace::Poker, "?"), Some(Command::Help));
    // The roster is shared.
    for w in ["join", "leave", "reset"] {
        assert_eq!(read_command(Namespace::Wolf, w), read_command(Namespace::Poker, w));
    }
}

#[test]
fn who_is_listened_to() {
    let msg = |chat: &str, kind: &str| InboundMessage {
        event_id: "e".into(),
        chat_id: chat.into(),
        chat_type: kind.into(),
        sender_open_id: "u".into(),
        message_type: "text".into(),
        text: "/poker state".into(),
        mentions: vec![],
    };
    assert_eq!(command_of(&msg("a", "group"), Some("a"), ""), Some(Command::State));
    assert_eq!(command_of(&msg("b", "group"), Some("a"), ""), None);
    assert_eq!(command_of(&msg("b", "p2p"), Some("a"), ""), Some(Command::State));
    let mut image = msg("a", "group");
    image.message_type = "image".into();
    assert_eq!(command_of(&image, None, ""), None);
    assert!(chat_allowed(None, "x") && !chat_allowed(Some("y"), "x"));
}

// ---- duplicates ----

#[test]
fn an_event_counts_once() {
    let mut seen = SeenEvents::new();
    assert!(!seen.is_duplicate_event("e1", 1_000));
    assert!(seen.is_duplicate_event("e1", 120_999));
    assert!(!seen.is_duplicate_event("e1", 300_000));
    assert!(!seen.is_duplicate_event("", 1) && !seen.is_duplicate_event("", 2));
}

#[test]
fn a_click_counts_once() {
    let mut recent = RecentClicks::new();
    let v = obj().with_text("action", "fold");
    assert!(!recent.is_duplicate_click("u", &v, 0));
    assert!(recent.is_duplicate_click("u", &v, 2_999));
    assert!(!recent.is_duplicate_click("w", &v, 2_999));
    assert!(!recent.is_duplicate_click("u", &obj().with_text("action", "call"), 100));
    assert!(!recent.is_duplicate_click("u", &v, 10_000));
}

#[test]
fn what_comes_in_between_changes_nothing() {
    let mut seen = SeenEvents::new();
    assert!(!seen.is_duplicate_event("e1", 1_000));
    assert!(!seen.is_duplicate_event("e2", 60_000));
    assert!(seen.is_duplicate_event("e1", 90_000));
    assert!(seen.is_duplicate_event("e1", 120_500));
    let mut recent = RecentClicks::new();
    let v = obj().with_text("action", "fold");
    assert!(!recent.is_duplicate_click("u", &v, 0));
    assert!(!recent.is_duplicate_click("w", &v, 1_000));
    assert!(recent.is_duplicate_click("u", &v, 2_000));
}

// ---- tables ----

fn seated() -> Tables {
    let mut t = Tables::new();
    t.join("c", "a", "Alice").unwrap();
    t.join("c", "b", "Bob").unwrap();
    t
}

#[test]
fn tables_of_chats() {
    let mut t = seated();
    assert_eq!(t.join("c", "a", "Alice"), Err(RoomError::Table(GameError::AlreadySeated)));
    assert_eq!(t.leave("d", "a"), Err(RoomError::NoTable));
    assert_eq!(t.start("d", DeckMode::Standard), Err(RoomError::NoTableToStart));
    assert_eq!(RoomError::NoTable.message(), "当前没有牌局");
    assert_eq!(RoomError::NoPlayers.message(), "还没有玩家加入");
    t.start("c", DeckMode::ShortDeck).unwrap();
    let g = t.find("c").unwrap();
    assert_eq!(g.mode, DeckMode::ShortDeck);
    let hands = dealt_hands(g);
    assert_eq!(hands.len(), 2);
    assert_eq!(hands[0].0, "a");
    assert_eq!(hands[0].1.len(), 2);
    assert!(hands.iter().all(|h| h.1.iter().all(|c| c.rank.0 >= 6)));
    t.reset("c");
    assert!(t.find("c").is_none());
}

#[test]
fn ai_seats() {
    let mut t = Tables::new();
    assert_eq!(t.remove_ai("c"), Err(RoomError::NoTable));
    t.add_ai("c", "ai:1", "AI 莽哥", Persona::LooseAggressive).unwrap();
    t.join("c", "a", "Alice").unwrap();
    assert_eq!(t.add_ai("c", "ai:1", "x", Persona::Maniac), Err(RoomError::Table(GameError::AlreadySeated)));
    assert_eq!(t.find("c").unwrap().players[0].persona, Some(Persona::LooseAggressive));
    assert_eq!(t.remove_ai("c"), Ok("AI 莽哥".to_string()));
    assert_eq!(t.find("c").unwrap().players.len(), 1);
    assert!(matches!(t.remove_ai("c"), Err(RoomError::Table(_))));
}

#[test]
fn ai_players_are_not_mentioned() {
    let mut t = Tables::new();
    t.join("c", "a", "Alice").unwrap();
    t.add_ai("c", "ai:1", "AI 莽哥", Persona::LooseAggressive).unwrap();
    t.start("c", DeckMode::Standard).unwrap();
    let g = t.find("c").unwrap();
    let lobby = format!("{:?}", build_lobby_card(&snapshot(g), true, None));
    assert!(lobby.contains("• AI 莽哥 — 990 筹码"));
    // The row of avatars is of everybody.
    assert!(lobby.contains("person_list") && lobby.contains("ai:1"));
    let start = format!("{:?}", build_hand_start_card(&snapshot(g)));
    assert!(start.contains("AI 莽哥") && !start.contains("ai:1"));
    let mut g = g.clone();
    let (outcome, snap) = play(&mut g, "a", PlayerAction::Call).unwrap();
    let said = format!("{:?}", outcome_cards(&snap, &outcome, g.mode).unwrap());
    assert!(said.contains("下一位 AI 莽哥") && !said.contains("ai:1"));
    assert_eq!(dealt_hands(&g).len(), 2);
}

#[test]
fn an_interrupted_hand_is_called_off() {
    let mut t = seated();
    t.start("c", DeckMode::Standard).unwrap();
    let mut g = t.find("c").unwrap().clone();
    g.act("a", PlayerAction::RaiseTo(40)).unwrap();
    assert_eq!(g.players[0].chips, 960);
    // It comes back as it was.
    let mut back = Tables::restored(vec![g]);
    let g = back.find("c").unwrap();
    assert_eq!((g.stage, g.players[0].chips, g.players[0].total_bet), (Stage::PreFlop, 960, 40));
    assert_eq!(back.join("c", "x", "Xu"), Err(RoomError::Table(GameError::JoinDuringHand)));
    // The next start gives the bets back and deals anew.
    back.start("c", DeckMode::ShortDeck).unwrap();
    let g = back.find("c").unwrap();
    assert_eq!((g.hand_count, g.stage, g.mode), (2, Stage::PreFlop, DeckMode::ShortDeck));
    assert!(g.players.iter().all(|p| p.chips + p.total_bet == 1000 && p.total_bet <= 10 && p.hole.len() == 2));
    // A start during that hand is refused: no restart came in between.
    assert_eq!(
        back.start("c", DeckMode::Standard),
        Err(RoomError::Table(GameError::HandInProgress(Stage::PreFlop)))
    );
}

#[test]
fn an_interrupted_hand_can_be_played_on() {
    let mut t = seated();
    t.start("c", DeckMode::Standard).unwrap();
    let mut back = Tables::restored(vec![t.find("c").unwrap().clone()]);
    let mut g = back.find("c").unwrap().clone();
    play(&mut g, "a", PlayerAction::Fold).unwrap();
    assert_eq!(g.stage, Stage::Ended);
    back.put(g);
    back.start("c", DeckMode::Standard).unwrap();
    let g = back.find("c").unwrap();
    assert_eq!(g.hand_count, 2);
    assert_eq!(g.players.iter().map(|p| p.chips + p.total_bet).collect::<Vec<_>>(), vec![995, 1005]);
    // A chat that starts over has nothing to be called off.
    back.reset("c");
    back.join("c", "a", "Alice").unwrap();
    assert_eq!(back.start("c", DeckMode::Standard), Err(RoomError::Table(GameError::TooFewPlayers)));
}

#[test]
fn whose_move_it_is() {
    let mut t = Tables::new();
    t.join("c", "a", "Alice").unwrap();
    t.add_ai("c", "ai:1", "AI", Persona::Maniac).unwrap();
    assert_eq!(next_actor(t.find("c").unwrap()), ActorStep::Nobody);
    t.start("c", DeckMode::Standard).unwrap();
    let mut g = t.find("c").unwrap().clone();
    assert_eq!(next_actor(&g), ActorStep::Prompt(0));
    g.act("a", PlayerAction::Call).unwrap();
    assert_eq!(next_actor(&g), ActorStep::Ask(1));
}

#[test]
fn a_round_is_complete_when_nobody_is_to_act() {
    let mut t = seated();
    t.start("c", DeckMode::Standard).unwrap();
    let mut g = t.find("c").unwrap().clone();
    assert!(!g.is_round_complete());
    assert_eq!((g.next_to_act_after(0), g.next_to_act_after(1)), (Some(1), Some(0)));
    for p in g.players.iter_mut() {
        p.acted_this_round = true;
        p.bet_in_round = 10;
    }
    assert!(g.is_round_complete());
    assert_eq!((g.next_to_act_after(0), g.next_to_act_after(1)), (None, None));
    g.players[1].bet_in_round = 5;
    assert!(!g.is_round_complete());
    assert_eq!(g.next_to_act_after(1), Some(1));
}

#[test]
fn an_ai_player_is_told_the_table() {
    let mut t = seated();
    t.start("c", DeckMode::Standard).unwrap();
    let mut g = t.find("c").unwrap().clone();
    g.act("a", PlayerAction::RaiseTo(40)).unwrap();
    let c = decision_context(&g, 1, Some(50));
    assert_eq!((c.pot, c.to_call, c.my_max_to, c.min_raise_to), (50, 30, 1000, 70));
    assert_eq!(c.others, vec!["Alice | 筹码 960 | 在局 | 本轮已下 40".to_string()]);
    assert_eq!(c.history, vec!["Alice 加注到 40".to_string()]);
    assert_eq!(c.hole, g.players[1].hole);
    assert_eq!(count_opponents(&g, 1), 1);
}

#[test]
fn tables_come_back() {
    let mut g = Game::new("c".into());
    g.add_player("a".into(), "Alice".into()).unwrap();
    // A table that is out of order comes back too.
    let mut odd = Game::new("d".into());
    odd.add_player("a".into(), "Alice".into()).unwrap();
    odd.players[0].total_bet = 1;
    assert!(g.is_in_order() && !odd.is_in_order());
    let mut t = Tables::restored(vec![g, odd]);
    assert_eq!(t.find("c").unwrap().players[0].chips, 1000);
    assert_eq!(t.find("d").unwrap().players[0].total_bet, 1);
    // Its players can come and go.
    t.join("d", "b", "Bob").unwrap();
    t.leave("d", "a").unwrap();
    assert!(t.find("d").unwrap().is_in_order());
}

#[test]
fn a_table_can_be_joined_whatever_its_chips() {
    let mut g = Game::new("c".into());
    g.add_player("a".into(), "Alice".into()).unwrap();
    g.players[0].chips = u64::MAX;
    assert!(g.is_in_order());
    g.add_ai_player("ai:1".into(), "AI".into(), Persona::Maniac).unwrap();
    assert_eq!(g.players[1].chips, 1000);
    assert!(!g.is_in_order());
    assert_eq!(g.remove_last_ai().unwrap(), "AI");
    assert!(g.is_in_order());
}

#[test]
fn the_whole_pot_is_paid_out() {
    let mut t = seated();
    t.start("c", DeckMode::Standard).unwrap();
    let mut g = t.find("c").unwrap().clone();
    assert!(g.act("a", PlayerAction::RaiseTo(40)).unwrap().summary.is_none());
    let o = g.act("b", PlayerAction::Fold).unwrap();
    let paid: u64 = o.summary.unwrap().payouts.iter().map(|p| p.amount).sum();
    assert_eq!((g.stage, paid), (Stage::Ended, 50));
    assert_eq!(g.players.iter().map(|p| p.chips).sum::<u64>(), 2000);
    assert!(g.players.iter().all(|p| p.total_bet == 0 && p.bet_in_round == 0));
}

#[test]
fn a_snapshot_hides_other_hands() {
    let mut t = seated();
    t.start("c", DeckMode::Standard).unwrap();
    let g = t.find("c").unwrap();
    assert!(snapshot(g).viewer_hole.is_empty());
    assert_eq!(snapshot_for(g, Some("b")).viewer_hole, g.players[1].hole);
    assert!(snapshot_for(g, Some("x")).viewer_hole.is_empty());
    assert_eq!(snapshot(g).pot, 15);
}

// ---- clicks ----

fn click(open_id: &str, value: Json, form: Json) -> CardAction {
    CardAction { event_id: "e".into(), open_id: open_id.into(), open_chat_id: "c".into(), value, form_value: form }
}

fn button(action: &str, actor: &str, hand: u64) -> Json {
    obj().with_text("action", action).with_text("actor", actor).with("hand", Json::number(hand))
}

#[test]
fn clicks_on_the_table() {
    let mut t = seated();
    t.start("c", DeckMode::Standard).unwrap();
    let g = t.find("c").unwrap();
    let read = |a: CardAction| read_click(&a, Some(g));
    assert!(matches!(read(click("a", button("fold", "a", 1), Json::Null)), Click::Act(PlayerAction::Fold, c) if c == "c"));
    assert!(matches!(read(click("a", button("fold", "a", 7), Json::Null)), Click::Refused(s) if s == "这是上一局的按钮"));
    assert!(matches!(read(click("b", button("fold", "a", 1), Json::Null)), Click::Refused(s) if s == "现在不是你的回合"));
    assert!(matches!(read(click("b", button("fold", "b", 1), Json::Null)), Click::Refused(s) if s.starts_with("这张卡片已失效")));
    assert!(matches!(
        read(click("a", button("raise", "a", 1).with("to", Json::number(30)), Json::Null)),
        Click::Act(PlayerAction::RaiseTo(30), _)
    ));
    assert!(matches!(read(click("a", button("raise", "a", 1), Json::Null)), Click::Refused(s) if s == "加注金额无效"));
    let typed = |s: &str| read(click("a", button("raise_custom", "a", 1), obj().with_text("raise_to", s)));
    assert!(matches!(typed(" 50 "), Click::Act(PlayerAction::RaiseTo(50), _)));
    assert!(matches!(typed("x"), Click::Refused(s) if s == "请输入有效的加注金额"));
    assert!(matches!(typed("0"), Click::Refused(_)));
    assert!(matches!(read(click("x", obj().with_text("action", "join_lobby"), Json::Null)), Click::Lobby(LobbyClick::Join, _)));
    let lobby = |id: &str| read(click("x", obj().with_text("action", id), Json::Null));
    assert!(matches!(lobby("leave_lobby"), Click::Lobby(LobbyClick::Leave, _)));
    assert!(matches!(lobby("start_lobby"), Click::Lobby(LobbyClick::Start(DeckMode::Standard), _)));
    assert!(matches!(lobby("start_short_lobby"), Click::Lobby(LobbyClick::Start(DeckMode::ShortDeck), _)));
    assert!(matches!(lobby("start_wolf_lobby"), Click::Lobby(LobbyClick::StartWolf, _)));
    assert!(matches!(lobby("add_ai_lobby"), Click::Lobby(LobbyClick::AddAi, _)));
    assert!(matches!(lobby("remove_ai_lobby"), Click::Lobby(LobbyClick::RemoveAi, _)));
    assert!(matches!(lobby("reset_lobby"), Click::Lobby(LobbyClick::Reset, _)));
    assert!(matches!(lobby("anything"), Click::Nothing));
    assert!(matches!(read(click("x", obj(), Json::Null)), Click::Nothing));
    assert_eq!(click_chat(&click("x", obj().with_text("chat_id", "d"), Json::Null)), "d");
}

#[test]
fn an_action_is_announced() {
    let mut g = Game::new("c".into());
    g.add_player("a".into(), "Alice".into()).unwrap();
    g.add_player("b".into(), "Bob".into()).unwrap();
    g.start_hand(DeckMode::Standard).unwrap();
    assert!(matches!(play(&mut g, "b", PlayerAction::Fold), Err(GameError::NotYourTurn)));
    let (outcome, snap) = play(&mut g, "a", PlayerAction::Call).unwrap();
    assert_eq!(outcome_cards(&snap, &outcome, g.mode).unwrap().len(), 1);
    assert_eq!(after_action(&g, &outcome), AfterAction::PromptActor);
    let (outcome, snap) = play(&mut g, "b", PlayerAction::Check).unwrap();
    assert_eq!(outcome_cards(&snap, &outcome, g.mode).unwrap().len(), 2);
    let (outcome, snap) = play(&mut g, "b", PlayerAction::Fold).unwrap();
    let cards = outcome_cards(&snap, &outcome, g.mode).unwrap();
    assert!(format!("{:?}", cards.last().unwrap()).contains("🏆 牌局结束"));
    assert_eq!(after_action(&g, &outcome), AfterAction::NewLobby);
    let mut strange = snap.clone();
    strange.players.clear();
    assert!(outcome_cards(&strange, &outcome, g.mode).is_none());
}

#[test]
fn raises_that_are_offered() {
    assert_eq!(raise_presets(20, 40, 60, 500), vec![40, 50, 80, 500]);
    assert_eq!(raise_presets(20, 40, 60, 30), Vec::<u64>::new());
    assert_eq!(raise_presets(0, 10, 0, 10), vec![10]);
}

#[test]
fn cards_are_rendered() {
    let mut t = seated();
    let lobby = format!("{:?}", build_lobby_card(&snapshot(t.find("c").unwrap()), false, None));
    assert!(lobby.contains("start_lobby") && lobby.contains("start_short_lobby"));
    assert!(lobby.contains("leave_lobby") && lobby.contains("reset_lobby"));
    assert!(!lobby.contains("start_wolf_lobby") && !lobby.contains("add_ai_lobby"));
    let with_model = format!("{:?}", build_lobby_card(&snapshot(t.find("c").unwrap()), true, Some(WolfStage::Ended)));
    assert!(with_model.contains("add_ai_lobby") && with_model.contains("remove_ai_lobby"));
    let during_wolf = format!("{:?}", build_lobby_card(&snapshot(t.find("c").unwrap()), true, Some(WolfStage::DayVote)));
    assert!(during_wolf.contains("狼人杀 · 白天投票") && !during_wolf.contains("_lobby\""));
    t.start("c", DeckMode::Standard).unwrap();
    let g = t.find("c").unwrap();
    let public = format!("{:?}", build_state_card(&snapshot(g), false));
    assert!(!public.contains("raise_custom"));
    let private = format!("{:?}", build_state_card(&snapshot_for(g, Some("a")), true));
    assert!(private.contains("raise_custom"));
    let chips = format!("{:?}", build_chips_card(&snapshot(g)).unwrap());
    assert!(chips.contains("</at> — **995** 筹码"));
    assert!(build_chips_card(&snapshot(&Game::new("x".into()))).is_none());
    assert!(format!("{:?}", build_welcome_card("c", "Ann")).contains("👋 **Ann**"));
    assert!(format!("{:?}", toast("hi")).contains("hi"));
}

#[test]
fn form_names_are_fresh() {
    let name = |j: &Json| j.get_str("name").unwrap().to_string();
    let a = submit_button("x", obj(), "primary");
    let b = submit_button("x", obj(), "primary");
    assert!(name(&a).starts_with("submit_"));
    assert_eq!(name(&a).len(), 39);
    assert_ne!(name(&a), name(&b));
}

#[test]
fn the_gallery() {
    let cards = mock_cards("c", "ou_a", "ou_b");
    assert_eq!(cards.len(), 17);
    assert_eq!(cards.iter().filter(|m| m.private).count(), 6);
    assert_eq!(cards[0].name, "/poker help (仅请求者可见)");
    assert_eq!(cards[13].name, "摊牌总结");
    let (summary, winner) = mock_summary();
    assert_eq!(winner, 0);
    assert_eq!(summary.payouts[0].note, "对子");
    assert!(format!("{:?}", build_label_card(3, "x")).contains("🧪 Mock #3"));
}

// ---- webhooks ----

fn event(kind: &str, body: Json) -> Json {
    obj()
        .with_text("schema", "2.0")
        .with(
            "header",
            obj().with_text("event_id", "e1").with_text("event_type", kind).with_text("token", "tok"),
        )
        .with("event", body)
}

fn message() -> Json {
    event(
        "im.message.receive_v1",
        obj()
            .with("sender", obj().with("sender_id", obj().with_text("open_id", "ou_u")))
            .with(
                "message",
                obj()
                    .with_text("chat_id", "oc_1")
                    .with_text("chat_type", "group")
                    .with_text("message_type", "text")
                    .with_text("content", "{\"text\":\"@_user_1 join\"}")
                    .with(
                        "mentions",
                        Json::list(vec![obj()
                            .with_text("key", "@_user_1")
                            .with("id", obj().with_text("open_id", "ou_bot"))]),
                    ),
            ),
    )
}

#[test]
fn messages_are_read() {
    let m = parse_inbound_message(&message()).unwrap();
    assert_eq!(m.text, "@_user_1 join");
    assert_eq!(m.chat_id, "oc_1");
    assert_eq!(m.sender_open_id, "ou_u");
    assert_eq!(m.event_id, "e1");
    assert_eq!(m.mentions[0].open_id, "ou_bot");
    assert_eq!(command_of(&m, None, "ou_bot"), Some(Command::Join));
    assert!(parse_inbound_message(&obj()).is_none());
}

#[test]
fn requests_are_routed() {
    assert!(matches!(route_event(&message(), Some("tok")), EventRequest::Message(_)));
    assert!(matches!(route_event(&message(), Some("other")), EventRequest::BadToken));
    assert!(matches!(route_event(&message(), Some("")), EventRequest::Message(_)));
    let setup = obj().with_text("type", "url_verification").with_text("challenge", "xyz");
    assert!(matches!(route_event(&setup, Some("other")), EventRequest::Challenge(s) if s == "xyz"));
    assert!(matches!(route_card(&setup, None), CardRequest::Challenge(s) if s == "xyz"));
    assert!(matches!(route_event(&event("unknown", obj()), None), EventRequest::Nothing));
    assert!(matches!(route_card(&event("card.action.trigger", obj()), None), CardRequest::Nothing));
    assert!(matches!(route_card(&obj().with_text("token", "bad"), Some("tok")), CardRequest::BadToken));
    assert_eq!(challenge_reply("x"), obj().with_text("challenge", "x"));
    assert!(format!("{:?}", error_reply("no")).contains("error"));
}

#[test]
fn new_members_are_read() {
    let user = |id: &str, name: &str| {
        obj().with("user_id", obj().with_text("open_id", id)).with_text("name", name)
    };
    let body = event(
        "im.chat.member.user.added_v1",
        obj().with_text("chat_id", "oc_1").with("users", Json::list(vec![user("ou_1", "Ann")])),
    );
    let m = parse_member_added(&body).unwrap();
    assert_eq!(m.chat_id, "oc_1");
    assert_eq!(m.users[0].open_id, "ou_1");
    assert_eq!(m.users[0].name, "Ann");
    assert!(matches!(route_event(&body, None), EventRequest::MembersAdded(_)));
}

#[test]
fn clicks_are_read() {
    let wrapped = event(
        "card.action.trigger",
        obj()
            .with("operator", obj().with_text("open_id", "ou_u"))
            .with("context", obj().with_text("open_chat_id", "oc_1"))
            .with("action", obj().with("value", obj().with_text("action", "fold"))),
    );
    let a = parse_card_action(&wrapped).unwrap();
    assert_eq!(a.open_id, "ou_u");
    assert_eq!(a.open_chat_id, "oc_1");
    assert_eq!(a.value.get_str("action"), Some("fold"));
    let flat = obj()
        .with_text("open_id", "ou_v")
        .with_text("open_chat_id", "oc_2")
        .with_text("uuid", "u1")
        .with("action", obj().with("value", obj().with_text("action", "call")));
    let a = parse_card_action(&flat).unwrap();
    assert_eq!((a.open_id.as_str(), a.event_id.as_str()), ("ou_v", "u1"));
}

// ---- werewolf clicks ----

fn wolf_room() -> WolfGame {
    let mut g = WolfGame::new("c".into());
    for i in 0..9 {
        g.add_player(format!("p{i}"), format!("P{i}")).unwrap();
    }
    g.start_game().unwrap();
    g
}

#[test]
fn clicks_on_the_wolf_cards() {
    let g = wolf_room();
    let value = |target: Option<&str>, game: u64| {
        let v = obj().with_text("actor", "p0").with("game", Json::number(game));
        match target {
            Some(t) => v.with_text("target", t),
            None => v,
        }
    };
    let read = |id: &str, who: &str, v: Json, form: Json| read_wolf_click(id, &click(who, v, form), Some(&g));
    assert!(matches!(
        read("wolf_kill", "p0", value(Some("p3"), 1), Json::Null),
        WolfClick::Move(WolfMove::Kill(t), c) if t == "p3" && c == "c"
    ));
    assert!(matches!(read("wolf_kill", "p0", value(None, 1), Json::Null), WolfClick::Refused(s) if s == "目标无效"));
    assert!(matches!(read("wolf_kill", "p1", value(Some("p3"), 1), Json::Null), WolfClick::Refused(s) if s == "这张卡片不是给你的"));
    assert!(matches!(read("wolf_kill", "p0", value(Some("p3"), 2), Json::Null), WolfClick::Refused(s) if s == "这是上一局的按钮"));
    assert!(matches!(
        read("wolf_chat_send", "p0", value(None, 1), obj().with_text("message", "  ")),
        WolfClick::Refused(s) if s == "发言为空"
    ));
    assert!(matches!(
        read("wolf_chat_send", "p0", value(None, 1), obj().with_text("message", " 刀 3 ")),
        WolfClick::Move(WolfMove::Say(s), _) if s == "刀 3"
    ));
    assert!(matches!(
        read("wolf_day_speech_submit", "p0", value(None, 1), obj().with_text("speech", "我是民")),
        WolfClick::Move(WolfMove::DaySpeech(s), _) if s == "我是民"
    ));
    for (id, want) in [
        ("wolf_ready", "Ready"),
        ("wolf_sheriff_run", "Nominate(true)"),
        ("wolf_sheriff_skip", "Nominate(false)"),
        ("wolf_sheriff_speech_skip", "SheriffSpeech(\"\")"),
        ("wolf_sheriff_side_skip", "SideSpeech(\"\")"),
        ("wolf_last_words_skip", "LastWords(\"\")"),
        ("wolf_day_speech_skip", "DaySpeech(\"\")"),
        ("wolf_sheriff_dir_up", "Direction(true)"),
        ("wolf_sheriff_dir_down", "Direction(false)"),
        ("wolf_sheriff_vote", "SheriffVote(Some(\"p3\"))"),
        ("wolf_sheriff_vote_abstain", "SheriffVote(None)"),
        ("wolf_badge_pass", "Badge(Some(\"p3\"))"),
        ("wolf_badge_destroy", "Badge(None)"),
        ("wolf_seer_check", "Check(\"p3\")"),
        ("wolf_witch_save", "Witch(true, None)"),
        ("wolf_witch_skip", "Witch(false, None)"),
        ("wolf_witch_poison", "Witch(false, Some(\"p3\"))"),
        ("wolf_vote", "Vote(Some(\"p3\"))"),
        ("wolf_vote_abstain", "Vote(None)"),
        ("wolf_hunter_shoot", "Shoot(Some(\"p3\"))"),
        ("wolf_hunter_skip", "Shoot(None)"),
        ("wolf_guard_pick", "Guard(\"p3\")"),
    ] {
        match read(id, "p0", value(Some("p3"), 1), Json::Null) {
            WolfClick::Move(m, _) => assert_eq!(format!("{m:?}"), want),
            other => panic!("{id}: {other:?}"),
        }
    }
    assert!(matches!(read("something", "p0", value(None, 1), Json::Null), WolfClick::Nothing));
    let none = read_wolf_click("wolf_ready", &click("p0", obj(), Json::Null), None);
    assert!(matches!(none, WolfClick::Refused(s) if s == "游戏不存在"));
}

// ---- the API ----

#[test]
fn replies_are_read() {
    let ok = || obj().with("code", Json::number(0));
    let t = ok().with_text("tenant_access_token", "t-1").with("expire", Json::number(100));
    assert_eq!(read_token(&t), Ok(("t-1".to_string(), 40)));
    assert_eq!(read_token(&ok().with_text("tenant_access_token", "t-1")), Ok(("t-1".to_string(), 7140)));
    let soon = ok().with_text("tenant_access_token", "t-1").with("expire", Json::number(30));
    assert_eq!(read_token(&soon), Ok(("t-1".to_string(), 0)));
    assert_eq!(read_token(&ok()), Err(ApiError::NoToken));
    assert_eq!(read_token(&obj()), Err(ApiError::Refused));
    assert_eq!(read_message_id(&ok().with("data", obj().with_text("message_id", "om_1"))), Ok("om_1".to_string()));
    assert_eq!(read_message_id(&ok()), Ok(String::new()));
    assert_eq!(read_message_id(&obj().with("code", Json::number(230001))), Err(ApiError::Refused));
    assert_eq!(read_done(&ok()), Ok(()));
    assert_eq!(read_done(&obj().with_text("code", "0")), Err(ApiError::Refused));
    assert_eq!(read_user_name(&ok()), Ok("玩家".to_string()));
}

#[test]
fn members_come_in_pages() {
    let page = obj().with("code", Json::number(0)).with(
        "data",
        obj()
            .with(
                "items",
                Json::list(vec![
                    obj().with_text("member_id", "ou_1").with_text("name", "Ann"),
                    obj().with_text("name", "nobody"),
                    obj().with_text("member_id", "ou_2"),
                ]),
            )
            .with("has_more", Json::Bool(true))
            .with_text("page_token", "p2"),
    );
    let mut known = vec![("ou_0".to_string(), "Zoe".to_string())];
    assert_eq!(read_members(&mut known, &page), Ok(Some("p2".to_string())));
    assert_eq!(known.len(), 3);
    assert_eq!(known[1], ("ou_1".to_string(), "Ann".to_string()));
    assert_eq!(known[2], ("ou_2".to_string(), String::new()));
    let end = obj().with("code", Json::number(0));
    assert_eq!(read_members(&mut known, &end), Ok(None));
    assert_eq!(read_members(&mut known, &obj()), Err(ApiError::Refused));
    assert_eq!(known.len(), 3);
    assert_eq!(
        members_url("oc_1", Some("p2")),
        "https://open.feishu.cn/open-apis/im/v1/chats/oc_1/members?member_id_type=open_id&page_size=100&page_token=p2"
    );
    assert!(members_url("oc_1", None).ends_with("page_size=100"));
}

#[test]
fn requests_are_built() {
    assert_eq!(token_request("a", "b").get_str("app_secret"), Some("b"));
    assert_eq!(message_url("chat_id"), "https://open.feishu.cn/open-apis/im/v1/messages?receive_id_type=chat_id");
    let m = message_body("oc_1", "interactive", "{}", "id-1");
    assert_eq!(m.get_str("uuid"), Some("id-1"));
    assert_eq!(m.get_str("content"), Some("{}"));
    let e = ephemeral_body("oc_1", "ou_1", text("card"));
    assert_eq!(e.get_str("msg_type"), Some("interactive"));
    assert_eq!(e.get_str("card"), Some("card"));
    assert_eq!(delete_body("om_1").get_str("message_id"), Some("om_1"));
    assert_eq!(update_url("om_1"), "https://open.feishu.cn/open-apis/im/v1/messages/om_1");
    assert_eq!(update_body("x").get_str("content"), Some("x"));
    assert_eq!(user_url("ou_1"), "https://open.feishu.cn/open-apis/contact/v3/users/ou_1?user_id_type=open_id");
}

#[test]
fn members_of_objects() {
    let a = obj().with_text("k", "1").with("n", Json::number(5));
    let b = a.copy().set("k", text("2"));
    assert_eq!(b.get_str("k"), Some("2"));
    assert_eq!(b.get_u64("n"), Some(5));
    assert_eq!(b.get_str("n"), None);
    let c = a.merged(&obj().with_text("k", "3").with_text("z", "4"));
    assert_eq!(c.get_str("k"), Some("3"));
    assert_eq!(c.get_str("z"), Some("4"));
    assert!(a.same(&a.copy()) && !a.same(&b));
}
