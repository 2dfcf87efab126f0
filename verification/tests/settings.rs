use larkriver::config::{read_dotenv, Config, ConfigError, Variables};
use larkriver::game::Game;
use larkriver::poker::DeckMode;
use larkriver::storage::{
    decode_poker, decode_wolf, load_poker, load_wolf, migrate_poker, migrate_wolf, EnvelopeOwned, Record, RecordError,
    POKER_SCHEMA_VERSION,
};
use larkriver::text::{
    decimal_text, fill, first_words, join, parse_number, remove_all, shorten, starts_with, strip_all, trim,
};
use larkriver::werewolf::WolfGame;

fn variables() -> Variables {
    Variables {
        app_id: Some("id".into()),
        app_secret: Some("secret".into()),
        bind_addr: None,
        allowed_chat_id: Some("".into()),
        verification_token: Some("t".into()),
        db_path: None,
    }
}

#[test]
fn settings_have_defaults() {
    let c = Config::from_variables(variables()).unwrap();
    assert_eq!(c.bind_addr, "0.0.0.0:8080");
    assert_eq!(c.db_path, "larkriver.redb");
    assert_eq!(c.allowed_chat_id, None);
    assert_eq!(c.verification_token.as_deref(), Some("t"));
    let mut v = variables();
    v.app_id = None;
    let e = Config::from_variables(v).unwrap_err();
    assert_eq!(e, ConfigError::NoAppId);
    assert_eq!(e.message(), "FEISHU_APP_ID is required");
    let mut v = variables();
    v.app_secret = None;
    assert_eq!(Config::from_variables(v).unwrap_err(), ConfigError::NoAppSecret);
}

#[test]
fn dotenv_files_are_read() {
    let s = read_dotenv("# note\nA=1\n  B = \"two words\"  \nbroken\nC='x=y'\n");
    let want: Vec<(String, String)> =
        [("A", "1"), ("B", "two words"), ("C", "x=y")].iter().map(|(a, b)| (a.to_string(), b.to_string())).collect();
    assert_eq!(s, want);
}

fn table() -> Game {
    let mut g = Game::new("oc_legacy".into());
    g.add_player("ou_a".into(), "Alice".into()).unwrap();
    g
}

#[test]
fn legacy_bare_game_record_still_loads() {
    // A bare game without an envelope: the envelope reads without version and
    // data, the game itself reads.
    let bare = Game::new("oc_legacy".into());
    let back = decode_poker(Some(EnvelopeOwned { v: None, data: None }), Some(bare)).expect("legacy record must still load");
    assert_eq!(back.chat_id, "oc_legacy");
    assert!(decode_wolf(None, Some(WolfGame::new("c".into()))).is_ok());
}

#[test]
fn forward_incompatible_record_is_rejected() {
    // The data of a future record may not even read as a game.
    assert_eq!(decode_poker(None, None).unwrap_err(), RecordError::UnreadablePoker);
    let future = Game::new("oc_future".into());
    let e = decode_poker(Some(EnvelopeOwned { v: Some(POKER_SCHEMA_VERSION + 99), data: Some(future) }), None).unwrap_err();
    assert_eq!(e, RecordError::NewerPoker(100));
    assert_eq!(
        e.message(),
        "poker record schema v100 is newer than this binary's v1 — refuse to read forward-incompatible state"
    );
    let e = migrate_wolf(2, Some(WolfGame::new("c".into()))).unwrap_err();
    assert_eq!(e, RecordError::NewerWolf(2));
    assert_eq!(e.message(), "wolf record schema v2 is newer than this binary's v1");
}

#[test]
fn current_records_are_read() {
    assert!(migrate_poker(POKER_SCHEMA_VERSION, Some(table())).is_ok());
    assert!(migrate_poker(0, Some(table())).is_ok());
    assert_eq!(migrate_poker(1, None).unwrap_err(), RecordError::NoPokerData);
    assert_eq!(decode_wolf(Some(EnvelopeOwned { v: Some(1), data: None }), None).unwrap_err(), RecordError::NoWolfData);
    assert_eq!(decode_poker(None, None).unwrap_err(), RecordError::UnreadablePoker);
    assert_eq!(decode_wolf(None, None).unwrap_err(), RecordError::UnreadableWolf);
    assert_eq!(RecordError::UnreadablePoker.message(), "failed both envelope and legacy deserialise for poker record");
}

#[test]
fn stored_tables_are_checked() {
    let mut g = table();
    assert!(g.is_in_order());
    g.add_player("ou_b".into(), "Bob".into()).unwrap();
    g.start_hand(DeckMode::Standard).unwrap();
    assert!(g.is_in_order());
    let mut h = g.clone();
    h.players[1].open_id = "ou_a".into();
    assert!(!h.is_in_order());
    let mut h = g.clone();
    h.players[0].hole = h.players[1].hole.clone();
    assert!(!h.is_in_order());
    let mut h = g.clone();
    h.community = h.players[0].hole.clone();
    assert!(!h.is_in_order());
    let mut h = g.clone();
    h.players[0].chips = u64::MAX;
    assert!(!h.is_in_order());
    let mut h = table();
    h.players[0].bet_in_round = 5;
    assert!(!h.is_in_order());
}

#[test]
fn texts() {
    assert_eq!(decimal_text(0), "0");
    assert_eq!(decimal_text(u64::MAX), u64::MAX.to_string());
    assert_eq!(trim(" \u{3000}a b\t\n"), "a b");
    assert!(starts_with("/poker x", "/poker"));
    assert_eq!(strip_all("/poker/poker x", "/poker"), " x");
    assert_eq!(remove_all("@_1 a @_1b", "@_1"), " a b");
    assert_eq!(first_words("  one two three"), (Some("one"), Some("two")));
    assert_eq!(first_words("   "), (None, None));
    assert_eq!(parse_number("0042"), Some(42));
    assert_eq!(parse_number("+7"), Some(7));
    assert_eq!(parse_number("18446744073709551615"), Some(u64::MAX));
    assert_eq!(parse_number("18446744073709551616"), None);
    assert_eq!(parse_number(""), None);
    assert_eq!(parse_number("4x"), None);
    assert_eq!(join(&vec!["a".into(), "b".into()], "、"), "a、b");
    assert_eq!(fill("{} + {} = {x}{}", &vec!["1".into(), "{}".into()]), "1 + {} = {x}{}");
    assert_eq!(shorten("狼人杀", 2), "狼人");
    assert_eq!(shorten("ab", 2), "ab");
}

#[test]
fn records_are_read_one_by_one() {
    let mut g = Game::new("a".into());
    g.hand_count = 7;
    let record = |chat_id: &str, v: Option<u32>, data: Option<Game>, bare: Option<Game>| Record {
        chat_id: chat_id.to_string(),
        envelope: Some(EnvelopeOwned { v, data }),
        bare,
    };
    let loaded = load_poker(vec![
        record("a", Some(POKER_SCHEMA_VERSION), Some(g), None),
        record("b", Some(POKER_SCHEMA_VERSION + 1), Some(Game::new("b".into())), None),
        Record { chat_id: "c".into(), envelope: None, bare: None },
        record("d", None, None, Some(Game::new("d".into()))),
    ]);
    let mut chats: Vec<(String, u32)> = loaded.games.iter().map(|(k, g)| (k.clone(), g.hand_count)).collect();
    chats.sort();
    assert_eq!(chats, vec![("a".to_string(), 7), ("d".to_string(), 0)]);
    assert_eq!(
        loaded.skipped,
        vec![
            ("c".to_string(), RecordError::UnreadablePoker),
            ("b".to_string(), RecordError::NewerPoker(POKER_SCHEMA_VERSION + 1)),
        ]
    );
    let wolves = load_wolf(vec![
        Record { chat_id: "w".into(), envelope: None, bare: Some(WolfGame::new("w".into())) },
        Record { chat_id: "x".into(), envelope: Some(EnvelopeOwned { v: Some(1), data: None }), bare: None },
    ]);
    assert_eq!(wolves.games.len(), 1);
    assert_eq!(wolves.skipped, vec![("x".to_string(), RecordError::NoWolfData)]);
}
