use blackjack::codec::{decode_hex, parse_u64, str_eq, strip_hex_prefix};
use blackjack::dispatch::{handle_request_action, handle_rollup_input, Report};
use blackjack::errors::GameError;
use blackjack::manager::Manager;
use blackjack::payload::{
    parse_action, parse_payload, parse_request_kind, Action, PayloadAction, RequestKind,
    RollupInput, RollupInputData, RollupInputDataMetadata,
};
use blackjack::player::Player;

const SENDER: &str = "0x70997970c51812dc3a010c7d01b50e0d17dc79c8";
const SENDER_B58: &str = "3k3fXxkHRyeom7N33UqQ3dwfLrm24G5EzLLT9iu5jtrktDaZ1K6T5EP";

fn meta(sender: &str, timestamp: u64) -> Option<RollupInputDataMetadata> {
    Some(RollupInputDataMetadata {
        block_number: 321,
        epoch_index: 0,
        input_index: 0,
        msg_sender: sender.to_string(),
        timestamp,
    })
}

fn input(request_type: &str, json: &str, sender: &str, timestamp: u64) -> RollupInput {
    RollupInput {
        data: RollupInputData {
            payload: format!("0x{}", hex::encode(json)),
            metadata: meta(sender, timestamp),
        },
        request_type: request_type.to_string(),
    }
}

fn payload(action: &str) -> PayloadAction {
    PayloadAction {
        action: action.to_string(),
        name: None,
        game_id: None,
        address: None,
        table_id: None,
    }
}

#[test]
fn hex_codec_round_trips() {
    assert_eq!(decode_hex("0a0bff").unwrap(), hex::decode("0a0bff").unwrap());
    assert_eq!(decode_hex("ABCDEF").unwrap(), hex::decode("abcdef").unwrap());
    assert_eq!(decode_hex(""), Some(Vec::new()));
    assert_eq!(decode_hex("abc"), None);
    assert_eq!(decode_hex("zz"), None);
    assert_eq!(strip_hex_prefix("0x0a"), "0a");
    assert_eq!(strip_hex_prefix("0a"), "0a");
    assert_eq!(strip_hex_prefix("0x"), "");
}

#[test]
fn decimal_id_parsing() {
    assert_eq!(parse_u64("0"), Some(0));
    assert_eq!(parse_u64("007"), Some(7));
    assert_eq!(parse_u64("9999999999999999999"), Some(9_999_999_999_999_999_999));
    assert_eq!(parse_u64("18446744073709551615"), None, "twenty digits are refused");
    assert_eq!(parse_u64(""), None);
    assert_eq!(parse_u64("12a"), None);
    assert_eq!(parse_u64("-3"), None);
}

#[test]
fn string_equality_helper() {
    assert!(str_eq("hit", "hit"));
    assert!(!str_eq("hit", "hit "));
    assert!(!str_eq("", "a"));
}

#[test]
fn base58_encoding_changes_its_input() {
    let enc = Player::new_without_id("abc".to_string()).get_id();
    assert_eq!(enc, "ZiCa");
    assert_eq!(enc, bs58::encode("abc").into_string());
    assert_ne!(enc, "abc");
}

#[test]
fn payload_input_member_detection() {
    let with = input("advance_state", r#"{"input":{"action":"hit"}}"#, SENDER, 1);
    assert!(blackjack::payload::has_input_inside_input(&with));
    let without = input("advance_state", r#"{"other":1}"#, SENDER, 1);
    assert!(!blackjack::payload::has_input_inside_input(&without));
    let mut bad = input("advance_state", "{}", SENDER, 1);
    bad.data.payload = "xx-".to_string();
    assert!(!blackjack::payload::has_input_inside_input(&bad));
}

#[test]
fn request_kind_and_action_parsing() {
    assert_eq!(parse_request_kind("advance_state"), Some(RequestKind::Advance));
    assert_eq!(parse_request_kind("inspect_state"), Some(RequestKind::Inspect));
    assert_eq!(parse_request_kind("other"), None);
    assert_eq!(parse_action("new_player"), Action::NewPlayer);
    assert_eq!(parse_action("show_winner"), Action::ShowWinner);
    assert_eq!(parse_action("double_down"), Action::DoubleDown);
    assert_eq!(parse_action("gamble"), Action::Unknown);
}

#[test]
fn payload_extraction() {
    let p = parse_payload(br#"{"input":{"action":"join_game","game_id":"3"}}"#).unwrap();
    assert_eq!(p.action, "join_game");
    assert_eq!(p.game_id.as_deref(), Some("3"));
    assert_eq!(p.name, None);
    assert!(matches!(parse_payload(b"not json"), Err(GameError::DecodeError)));
    assert!(matches!(parse_payload(br#"{"x":1}"#), Err(GameError::ValidationError)));
    assert!(matches!(parse_payload(br#"{"input":{}}"#), Err(GameError::ValidationError)));
    assert!(matches!(
        parse_payload(br#"{"input":{"action":7}}"#),
        Err(GameError::ValidationError)
    ));
}

#[test]
fn new_player_scenario_registers_and_reports() {
    let mut m = Manager::new_with_games(1);
    let inp = input(
        "advance_state",
        r#"{"input":{"action":"new_player","name":"Alice"}}"#,
        SENDER,
        1694789355,
    );
    let rep = handle_rollup_input(&mut m, &inp).unwrap();
    match rep {
        Some(Report::NewPlayer { address, encoded_name, name }) => {
            assert_eq!(address, SENDER_B58);
            assert_eq!(
                address,
                bs58::encode("70997970c51812dc3a010c7d01b50e0d17dc79c8").into_string()
            );
            assert_eq!(encoded_name, "8P7H1qe");
            assert_eq!(encoded_name, bs58::encode("Alice").into_string());
            assert_eq!(name, "Alice");
        },
        other => panic!("unexpected report: {:?}", other.is_some()),
    }
    assert_eq!(m.players.len(), 1);
    assert_eq!(m.players[0].get_id(), SENDER_B58);
    assert_eq!(m.players[0].name, "Alice");
}

#[test]
fn duplicate_registration_is_refused() {
    let mut m = Manager::new_with_games(1);
    let json = r#"{"input":{"action":"new_player","name":"Alice"}}"#;
    handle_rollup_input(&mut m, &input("advance_state", json, SENDER, 1)).unwrap();
    let second = handle_rollup_input(&mut m, &input("advance_state", json, SENDER, 2));
    assert!(matches!(second, Err(GameError::StateError)));
    assert_eq!(m.players.len(), 1);
}

#[test]
fn short_name_is_rejected() {
    let mut m = Manager::new_with_games(1);
    let r = handle_rollup_input(
        &mut m,
        &input("advance_state", r#"{"input":{"action":"new_player","name":"Al"}}"#, SENDER, 1),
    );
    assert!(matches!(r, Err(GameError::ValidationError)));
    assert_eq!(m.players.len(), 0);
}

fn started_round() -> Manager {
    let mut m = Manager::new_with_games(1);
    let a = r#"{"input":{"action":"new_player","name":"Alice"}}"#;
    let b = r#"{"input":{"action":"new_player","name":"Bobby"}}"#;
    let join = r#"{"input":{"action":"join_game","game_id":"0"}}"#;
    let start = r#"{"input":{"action":"start_game","game_id":"0"}}"#;
    handle_rollup_input(&mut m, &input("advance_state", a, SENDER, 1)).unwrap();
    handle_rollup_input(&mut m, &input("advance_state", b, "0xbbbb", 2)).unwrap();
    handle_rollup_input(&mut m, &input("advance_state", join, SENDER, 3)).unwrap();
    handle_rollup_input(&mut m, &input("advance_state", join, "0xbbbb", 4)).unwrap();
    handle_rollup_input(&mut m, &input("advance_state", start, SENDER, 1694789355)).unwrap();
    m
}

#[test]
fn two_player_round_leaves_one_hundred_cards() {
    let m = started_round();
    assert_eq!(m.games.len(), 0, "the lobby is consumed");
    assert_eq!(m.tables.len(), 1);
    assert_eq!(m.tables[0].deck.cards.len(), 104 - 4);
    assert_eq!(m.tables[0].players_with_hand.len(), 2);
    for h in &m.tables[0].players_with_hand {
        assert_eq!(h.hand.0.len(), 2);
    }
}

#[test]
fn inspect_state_must_not_mutate() {
    let mut m = Manager::new_with_games(1);
    handle_rollup_input(
        &mut m,
        &input("advance_state", r#"{"input":{"action":"new_player","name":"Alice"}}"#, SENDER, 1),
    )
    .unwrap();
    let players_before = m.players.len();
    let lobby_before = m.games[0].players.len();
    let r = handle_rollup_input(
        &mut m,
        &input("inspect_state", r#"{"input":{"action":"join_game","game_id":"0"}}"#, SENDER, 2),
    );
    assert!(matches!(r, Err(GameError::ValidationError)));
    assert_eq!(m.players.len(), players_before);
    assert_eq!(m.games[0].players.len(), lobby_before);
}

#[test]
fn decode_failures_reject_without_effect() {
    let mut m = Manager::new_with_games(1);
    let mut bad_hex = input("advance_state", "{}", SENDER, 1);
    bad_hex.data.payload = "0xzz".to_string();
    assert!(matches!(handle_rollup_input(&mut m, &bad_hex), Err(GameError::DecodeError)));

    let bad_json = input("advance_state", "pure noise", SENDER, 1);
    assert!(matches!(handle_rollup_input(&mut m, &bad_json), Err(GameError::DecodeError)));

    let bad_kind = input("reboot", r#"{"input":{"action":"show_games"}}"#, SENDER, 1);
    assert!(matches!(handle_rollup_input(&mut m, &bad_kind), Err(GameError::DecodeError)));

    let unknown = input("advance_state", r#"{"input":{"action":"gamble"}}"#, SENDER, 1);
    assert!(matches!(handle_rollup_input(&mut m, &unknown), Err(GameError::ValidationError)));
    assert_eq!(m.players.len(), 0);
    assert_eq!(m.games.len(), 1);
}

#[test]
fn unimplemented_actions_reject_cleanly() {
    let mut m = Manager::new_with_games(1);
    for action in ["double_down", "split", "surrender"] {
        let json = format!(r#"{{"input":{{"action":"{}"}}}}"#, action);
        let r = handle_rollup_input(&mut m, &input("advance_state", &json, SENDER, 1));
        assert!(matches!(r, Err(GameError::NotImplemented)));
    }
}

#[test]
fn join_unknown_game_is_not_found() {
    let mut m = Manager::new_with_games(1);
    handle_rollup_input(
        &mut m,
        &input("advance_state", r#"{"input":{"action":"new_player","name":"Alice"}}"#, SENDER, 1),
    )
    .unwrap();
    let r = handle_rollup_input(
        &mut m,
        &input("advance_state", r#"{"input":{"action":"join_game","game_id":"5"}}"#, SENDER, 2),
    );
    assert!(matches!(r, Err(GameError::NotFoundError)));
}

#[test]
fn join_without_registration_is_not_found() {
    let mut m = Manager::new_with_games(1);
    let r = handle_rollup_input(
        &mut m,
        &input("advance_state", r#"{"input":{"action":"join_game","game_id":"0"}}"#, SENDER, 2),
    );
    assert!(matches!(r, Err(GameError::NotFoundError)));
}

#[test]
fn missing_metadata_is_rejected() {
    let mut m = Manager::new_with_games(1);
    let mut inp =
        input("advance_state", r#"{"input":{"action":"new_player","name":"Alice"}}"#, SENDER, 1);
    inp.data.metadata = None;
    assert!(matches!(handle_rollup_input(&mut m, &inp), Err(GameError::ValidationError)));
}

#[test]
fn start_with_one_player_is_a_capacity_error() {
    let mut m = Manager::new_with_games(1);
    let a = r#"{"input":{"action":"new_player","name":"Alice"}}"#;
    let join = r#"{"input":{"action":"join_game","game_id":"0"}}"#;
    let start = r#"{"input":{"action":"start_game","game_id":"0"}}"#;
    handle_rollup_input(&mut m, &input("advance_state", a, SENDER, 1)).unwrap();
    handle_rollup_input(&mut m, &input("advance_state", join, SENDER, 2)).unwrap();
    let r = handle_rollup_input(&mut m, &input("advance_state", start, SENDER, 3));
    assert!(matches!(r, Err(GameError::CapacityError)));
    assert_eq!(m.games.len(), 1, "the lobby stays");
    assert_eq!(m.games[0].players.len(), 1);
}

#[test]
fn eighth_join_is_a_capacity_error() {
    let mut m = Manager::new_with_games(1);
    for i in 0..8u32 {
        let name = format!(r#"{{"input":{{"action":"new_player","name":"Player{}"}}}}"#, i);
        let sender = format!("0x{:040x}", i);
        handle_rollup_input(&mut m, &input("advance_state", &name, &sender, 1)).unwrap();
        let join = r#"{"input":{"action":"join_game","game_id":"0"}}"#;
        let r = handle_rollup_input(&mut m, &input("advance_state", join, &sender, 2));
        if i < 7 {
            assert!(r.is_ok());
            assert_eq!(m.games[0].players.len(), i as usize + 1);
        } else {
            assert!(matches!(r, Err(GameError::CapacityError)));
            assert_eq!(m.games[0].players.len(), 7);
        }
    }
}

#[test]
fn hit_draws_one_card_via_dispatch() {
    let mut m = started_round();
    let deck_before = m.tables[0].deck.cards.len();
    let hit = r#"{"input":{"action":"hit","game_id":"0"}}"#;
    handle_rollup_input(&mut m, &input("advance_state", hit, SENDER, 10)).unwrap();
    assert_eq!(m.tables[0].deck.cards.len(), deck_before - 1);
    assert_eq!(m.tables[0].players_with_hand[0].hand.0.len(), 3);
}

#[test]
fn hit_by_stranger_is_not_found() {
    let mut m = started_round();
    let hit = r#"{"input":{"action":"hit","game_id":"0"}}"#;
    let r = handle_rollup_input(&mut m, &input("advance_state", hit, "0xcccc", 10));
    assert!(matches!(r, Err(GameError::NotFoundError)));
}

#[test]
fn stands_via_dispatch_auto_stop_the_round() {
    let mut m = started_round();
    let stand = r#"{"input":{"action":"stand","game_id":"0"}}"#;
    handle_rollup_input(&mut m, &input("advance_state", stand, SENDER, 11)).unwrap();
    assert_eq!(m.tables.len(), 1);
    handle_rollup_input(&mut m, &input("advance_state", stand, "0xbbbb", 12)).unwrap();
    assert_eq!(m.tables.len(), 0, "round auto-stops when every hand stands");
    assert_eq!(m.games.len(), 1);
}

#[test]
fn stop_game_returns_the_lobby() {
    let mut m = started_round();
    let stop = r#"{"input":{"action":"stop_game","game_id":"0"}}"#;
    handle_rollup_input(&mut m, &input("advance_state", stop, SENDER, 11)).unwrap();
    assert_eq!(m.tables.len(), 0);
    assert_eq!(m.games.len(), 1);
    let again = handle_rollup_input(&mut m, &input("advance_state", stop, SENDER, 12));
    assert!(matches!(again, Err(GameError::NotFoundError)));
}

#[test]
fn show_games_reports_ids_and_counts() {
    let mut m = Manager::new_with_games(2);
    m.add_player(Player::new("a".to_string(), "Ann".to_string())).unwrap();
    m.player_join(1, "a".to_string()).unwrap();
    let r = handle_request_action(&mut m, RequestKind::Inspect, payload("show_games"), &None);
    match r.unwrap() {
        Some(Report::Games { games }) => {
            assert_eq!(games.len(), 2);
            assert_eq!(games[0].id, 0);
            assert_eq!(games[0].players, 0);
            assert_eq!(games[1].id, 1);
            assert_eq!(games[1].players, 1);
        },
        _ => panic!("expected a games report"),
    }
}

#[test]
fn show_player_reports_membership() {
    let mut m = started_round();
    let mut p = payload("show_player");
    p.address = Some(SENDER.to_string());
    let r = handle_request_action(&mut m, RequestKind::Inspect, p, &None);
    match r.unwrap() {
        Some(Report::PlayerInfo { name, address, joined, playing }) => {
            assert_eq!(name, "Alice");
            assert_eq!(address, "70997970c51812dc3a010c7d01b50e0d17dc79c8");
            assert!(joined.is_empty(), "the lobby was consumed by the round");
            assert_eq!(playing, vec![0]);
        },
        _ => panic!("expected a player report"),
    }
    let mut q = payload("show_player");
    q.address = Some("0xfeed".to_string());
    let missing = handle_request_action(&mut m, RequestKind::Inspect, q, &None);
    assert!(matches!(missing, Err(GameError::NotFoundError)));
}

#[test]
fn show_hands_and_winner_via_dispatch() {
    let mut m = started_round();
    let mut p = payload("show_hands");
    p.game_id = Some("0".to_string());
    match handle_request_action(&mut m, RequestKind::Inspect, p, &None).unwrap() {
        Some(Report::Hands { hands }) => {
            assert_eq!(hands.len(), 2);
            assert_eq!(hands[0].name, "Alice");
            assert_eq!(hands[0].cards.len(), 2);
        },
        _ => panic!("expected a hands report"),
    }
    let mut no_table = payload("show_winner");
    no_table.game_id = Some("0".to_string());
    assert!(
        matches!(
            handle_request_action(&mut m, RequestKind::Inspect, no_table, &None),
            Err(GameError::ValidationError)
        ),
        "the winner query requires the round id"
    );
    let mut w = payload("show_winner");
    w.game_id = Some("0".to_string());
    w.table_id = Some("0".to_string());
    match handle_request_action(&mut m, RequestKind::Inspect, w, &None).unwrap() {
        Some(Report::Winner { scoreboard }) => {
            assert_eq!(scoreboard.rows.len(), 2);
            assert!(scoreboard.rows[0].points >= scoreboard.rows[1].points);
        },
        _ => panic!("expected a winner report"),
    }
}

#[test]
fn decoded_payload_strips_prefix_and_checks_hex() {
    let inp = input("advance_state", r#"{"a":1}"#, SENDER, 1);
    assert_eq!(inp.decoded_payload().unwrap(), br#"{"a":1}"#.to_vec());
    let mut bad = input("advance_state", "{}", SENDER, 1);
    bad.data.payload = "abc".to_string();
    assert_eq!(bad.decoded_payload(), None);
}
