//! The message grammar: parse and encode, form by form.

use shotgun_arena::Action;
use shotgun_arena::ParseError;
use shotgun_arena::ParsedLine;
use shotgun_arena::RoundAction;
use shotgun_arena::follow_quoted_str;
use shotgun_arena::to_parse_error;

#[test]
fn parse_client_hello() {
    let s = "Nickname: >dns2utf8<>rust";
    let obj = ParsedLine::ClientHello {
        nickname: "dns2utf8".into(),
        programming_language: "rust".into(),
    };
    assert_eq!(obj, ParsedLine::parse(s).unwrap());
}

#[test]
fn encode_client_hello() {
    let s = "Nickname: >dns2utf8<>rust";
    let obj = ParsedLine::ClientHello {
        nickname: "dns2utf8".into(),
        programming_language: "rust".into(),
    };
    assert_eq!(s, obj.serialize());
}

#[test]
fn parse_server_hello() {
    let s = "Shotgun Arena Server v0 :: max round length[ms]: 200";
    let obj = ParsedLine::ServerHello { max_round_length: 200 };
    assert_eq!(obj, ParsedLine::parse(s).unwrap());
}

#[test]
fn encode_server_hello() {
    let s = "Shotgun Arena Server v0 :: max round length[ms]: 200";
    let obj = ParsedLine::ServerHello { max_round_length: 200 };
    assert_eq!(s, obj.serialize());
}

#[test]
fn parse_request_new_game() {
    let s = "RequestNewGame";
    let obj = ParsedLine::RequestNewGame;
    assert_eq!(obj, ParsedLine::parse(s).unwrap());
}

#[test]
fn encode_request_new_game() {
    let s = "RequestNewGame";
    let obj = ParsedLine::RequestNewGame;
    assert_eq!(s, obj.serialize());
}

#[test]
fn parse_zero_new_game() {
    let s = "0:NewGame { opponent: \"you\" }";
    let obj = ParsedLine::MultiplexedMessage {
        game_id: 0,
        action: Action::NewGame { opponent: "you".into() },
    };
    assert_eq!(obj, ParsedLine::parse(s).unwrap());
}

#[test]
fn encode_zero_new_game() {
    let s = "0:NewGame { opponent: \"you\" }";
    let obj = ParsedLine::MultiplexedMessage {
        game_id: 0,
        action: Action::NewGame { opponent: "you".into() },
    };
    assert_eq!(s, obj.serialize());
}

#[test]
fn parse_ten_duck() {
    let resp = ParsedLine::parse("10:Duck");
    let obj = ParsedLine::MultiplexedMessage {
        game_id: 10,
        action: Action::PlayerInput(RoundAction::Duck),
    };
    assert_eq!(Ok(obj), resp);
}

#[test]
fn encode_ten_duck() {
    let pl = ParsedLine::MultiplexedMessage {
        game_id: 10,
        action: Action::PlayerInput(RoundAction::Duck),
    };
    assert_eq!("10:Duck".to_string(), pl.serialize());
}

#[test]
fn parse_new_game() {
    let resp = Action::parse("NewGame { opponent: \"you\" }").unwrap();
    let obj = Action::NewGame { opponent: "you".into() };
    assert_eq!(obj, resp);
}

#[test]
fn encode_new_game() {
    let resp = "NewGame { opponent: \"you\" }";
    let obj = format!("{:?}", Action::NewGame { opponent: "you".into() });
    assert_eq!(resp, obj);
}

#[test]
fn parse_round_result() {
    let resp = Action::parse("RoundResult { a: Duck, b: Load }").unwrap();
    let obj = Action::RoundResult { a: RoundAction::Duck, b: RoundAction::Load };
    assert_eq!(obj, resp);
}

#[test]
fn encode_round_result() {
    let resp = "RoundResult { a: Duck, b: Load }";
    let obj = format!("{:?}", Action::RoundResult { a: RoundAction::Duck, b: RoundAction::Load });
    assert_eq!(resp, obj);
}

#[test]
fn parse_timeout() {
    assert_eq!(Ok(RoundAction::Timeout), RoundAction::parse("Timeout"))
}

#[test]
fn parse_duck() {
    assert_eq!(Ok(RoundAction::Duck), RoundAction::parse("Duck"))
}

#[test]
fn parse_load() {
    assert_eq!(Ok(RoundAction::Load), RoundAction::parse("Load"))
}

#[test]
fn parse_shoot() {
    assert_eq!(Ok(RoundAction::Shoot), RoundAction::parse("Shoot"))
}

#[test]
fn parse_klick() {
    assert_eq!(Ok(RoundAction::Klick), RoundAction::parse("Klick"))
}

#[test]
fn parse_win_game() {
    assert_eq!(Ok(Action::WinGame), Action::parse("WinGame"))
}

#[test]
fn parse_lose_game() {
    assert_eq!(Ok(Action::LoseGame), Action::parse("LoseGame"))
}

#[test]
fn parse_error_end() {
    assert_eq!(Ok(Action::ErrorEnd), Action::parse("ErrorEnd"))
}

#[test]
fn parse_invalid_action() {
    assert_eq!(
        Err(ParseError::InvalidAction("invalid Action: \"blubb\"".to_string())),
        Action::parse("blubb")
    )
}

#[test]
fn check_follow_quoted_str() {
    let s = "ab: \"blubbeln zu zweit\", def: \"asldfj\"";
    let (start, end) = (4, 23);
    assert_eq!(end, follow_quoted_str(&s, start));
    assert_eq!("\"blubbeln zu zweit\"", &s[start..end]);
}

#[test]
fn follow_quoted_str_skips_escaped_quote() {
    let s = "\"a\\\"b\" tail";
    assert_eq!(6, follow_quoted_str(s, 0));
    assert_eq!("\"a\\\"b\"", &s[0..6]);
}

#[test]
fn parse_new_game_with_escaped_quote() {
    let resp = Action::parse("NewGame { opponent: \"a\\\"b\" }").unwrap();
    let obj = Action::NewGame { opponent: "a\\\"b".into() };
    assert_eq!(obj, resp);
}

#[test]
fn parse_accepts_leading_zeros() {
    let obj = ParsedLine::MultiplexedMessage {
        game_id: 7,
        action: Action::PlayerInput(RoundAction::Load),
    };
    assert_eq!(Ok(obj), ParsedLine::parse("007:Load"));
}

#[test]
fn serialize_large_duration() {
    let obj = ParsedLine::ServerHello { max_round_length: u64::MAX };
    let s = obj.serialize();
    assert_eq!(
        "Shotgun Arena Server v0 :: max round length[ms]: 18446744073709551615",
        s
    );
    assert_eq!(Ok(ParsedLine::ServerHello { max_round_length: u64::MAX }), ParsedLine::parse(&s));
}

#[test]
fn parse_garbage_is_invalid_action() {
    assert_eq!(
        Err(ParseError::InvalidAction("invalid Action: \"garbage\"".to_string())),
        ParsedLine::parse("garbage")
    );
}

#[test]
fn parse_bad_session_id() {
    assert_eq!(Err(ParseError::InvalidSessionId), ParsedLine::parse("abc:Load"));
}

#[test]
fn parse_session_id_overflow() {
    let max = format!("{}:Load", u64::MAX);
    let obj = ParsedLine::MultiplexedMessage {
        game_id: u64::MAX,
        action: Action::PlayerInput(RoundAction::Load),
    };
    assert_eq!(Ok(obj), ParsedLine::parse(&max));
    assert_eq!(
        Err(ParseError::InvalidSessionId),
        ParsedLine::parse("18446744073709551616:Load")
    );
}

#[test]
fn parse_missing_field() {
    assert_eq!(Err(ParseError::MissingField), ParsedLine::parse("Nickname: >lonely"));
}

#[test]
fn parse_empty_nickname() {
    let obj = ParsedLine::ClientHello {
        nickname: "".into(),
        programming_language: "rust".into(),
    };
    assert_eq!(Ok(obj), ParsedLine::parse("Nickname: ><>rust"));
}

#[test]
fn parse_bad_duration() {
    assert_eq!(
        Err(ParseError::InvalidDuration),
        ParsedLine::parse("Shotgun Arena Server v0 :: max round length[ms]: soon")
    );
    assert_eq!(
        Err(ParseError::InvalidDuration),
        ParsedLine::parse("Shotgun Arena Server v0 :: max round length[ms]: ")
    );
}

#[test]
fn parse_bad_round_result() {
    assert!(Action::parse("RoundResult { a: Dance, b: Load }").is_err());
    assert!(Action::parse("RoundResult { a: Duck, b: Load").is_err());
}

#[test]
fn parse_unterminated_new_game() {
    assert!(Action::parse("NewGame { opponent: \"you").is_err());
}

#[test]
fn answer_swaps_action() {
    let req = ParsedLine::MultiplexedMessage {
        game_id: 7,
        action: Action::PlayerInput(RoundAction::Load),
    };
    let resp = req.answer(Action::PlayerInput(RoundAction::Shoot));
    let expect = ParsedLine::MultiplexedMessage {
        game_id: 7,
        action: Action::PlayerInput(RoundAction::Shoot),
    };
    assert_eq!(expect, resp);
}

#[test]
fn to_parse_error_maps_missing_value() {
    assert_eq!(Ok(5u64), to_parse_error(Some(5u64)));
    assert_eq!(Err(ParseError::MissingField), to_parse_error::<u64>(None));
}

#[test]
fn round_trip_all_fixed_forms() {
    let lines = vec![
        ParsedLine::RequestNewGame,
        ParsedLine::ServerHello { max_round_length: 1234567 },
        ParsedLine::ClientHello {
            nickname: "Ann".into(),
            programming_language: "rust".into(),
        },
        ParsedLine::MultiplexedMessage { game_id: 0, action: Action::WinGame },
        ParsedLine::MultiplexedMessage { game_id: 1, action: Action::LoseGame },
        ParsedLine::MultiplexedMessage { game_id: 99, action: Action::ErrorEnd },
        ParsedLine::MultiplexedMessage {
            game_id: 42,
            action: Action::PlayerInput(RoundAction::Timeout),
        },
        ParsedLine::MultiplexedMessage {
            game_id: 7,
            action: Action::RoundResult { a: RoundAction::Klick, b: RoundAction::Shoot },
        },
        ParsedLine::MultiplexedMessage {
            game_id: u64::MAX,
            action: Action::NewGame { opponent: "Bob".into() },
        },
    ];
    for line in lines {
        let text = line.serialize();
        assert_eq!(Ok(line), ParsedLine::parse(&text));
    }
}
