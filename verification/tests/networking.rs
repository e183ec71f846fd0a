//! The line codec and the handshake driver.

use shotgun_arena::Action;
use shotgun_arena::FramingError;
use shotgun_arena::ParsedLine;
use shotgun_arena::ProtocolError;
use shotgun_arena::RoundAction;
use shotgun_arena::networking::ConnectionState;
use shotgun_arena::networking::DecodeError;
use shotgun_arena::networking::LineCodec;
use shotgun_arena::networking::LineProto;

#[test]
fn networking_it_works() {}

#[test]
fn decode_needs_more_data() {
    let mut buf: Vec<u8> = b"RequestNewGa".to_vec();
    assert_eq!(Ok(None), LineCodec::decode(&mut buf));
    assert_eq!(b"RequestNewGa".to_vec(), buf);
}

#[test]
fn decode_takes_one_line() {
    let mut buf: Vec<u8> = b"RequestNewGame\n10:Duck\n".to_vec();
    assert_eq!(Ok(Some(ParsedLine::RequestNewGame)), LineCodec::decode(&mut buf));
    assert_eq!(b"10:Duck\n".to_vec(), buf);
    let second = LineCodec::decode(&mut buf);
    let obj = ParsedLine::MultiplexedMessage {
        game_id: 10,
        action: Action::PlayerInput(RoundAction::Duck),
    };
    assert_eq!(Ok(Some(obj)), second);
    assert_eq!(0, buf.len());
}

#[test]
fn decode_rejects_bad_utf8() {
    let mut buf: Vec<u8> = vec![0xff, 0xfe, b'\n', b'o', b'k'];
    assert_eq!(
        Err(DecodeError::Framing(FramingError::InvalidUtf8)),
        LineCodec::decode(&mut buf)
    );
    assert_eq!(b"ok".to_vec(), buf);
}

#[test]
fn decode_reports_parse_errors() {
    let mut buf: Vec<u8> = b"abc:Load\n".to_vec();
    match LineCodec::decode(&mut buf) {
        Err(DecodeError::Parse(_)) => {},
        other => panic!("expected a parse error, got {:?}", other),
    }
    assert_eq!(0, buf.len());
}

#[test]
fn encode_appends_line() {
    let mut buf: Vec<u8> = Vec::new();
    LineCodec::encode(&ParsedLine::RequestNewGame, &mut buf);
    assert_eq!(b"RequestNewGame\n".to_vec(), buf);
    LineCodec::encode(&ParsedLine::ServerHello { max_round_length: 200 }, &mut buf);
    assert_eq!(
        b"RequestNewGame\nShotgun Arena Server v0 :: max round length[ms]: 200\n".to_vec(),
        buf
    );
}

#[test]
fn encode_decode_round_trip() {
    let msg = ParsedLine::ClientHello {
        nickname: "dns2utf8".into(),
        programming_language: "rust".into(),
    };
    let mut buf: Vec<u8> = Vec::new();
    LineCodec::encode(&msg, &mut buf);
    assert_eq!(Ok(Some(msg)), LineCodec::decode(&mut buf));
    assert_eq!(0, buf.len());
}

#[test]
fn handshake_accepts_client_hello() {
    let mut proto = LineProto::new();
    assert_eq!(None, proto.client_hello);
    assert_eq!(ConnectionState::Handshake, proto.state);
    let hello = ParsedLine::ClientHello {
        nickname: "Ann".into(),
        programming_language: "rust".into(),
    };
    let reply = proto.handshake(hello.clone(), 200);
    assert_eq!(Ok(ParsedLine::ServerHello { max_round_length: 200 }), reply);
    assert_eq!(ConnectionState::ArenaMode, proto.state);
    assert_eq!(Some(hello), proto.client_hello);
}

#[test]
fn handshake_rejects_other_first_message() {
    let mut proto = LineProto::new();
    let reply = proto.handshake(ParsedLine::RequestNewGame, 200);
    assert_eq!(Err(ProtocolError::InvalidHandshake), reply);
    assert_eq!(ConnectionState::Handshake, proto.state);
    assert_eq!(None, proto.client_hello);
}

#[test]
fn handshake_twice_is_out_of_turn() {
    let mut proto = LineProto::new();
    let hello = ParsedLine::ClientHello {
        nickname: "Ann".into(),
        programming_language: "rust".into(),
    };
    assert!(proto.handshake(hello, 200).is_ok());
    let again = ParsedLine::ClientHello {
        nickname: "Ann".into(),
        programming_language: "rust".into(),
    };
    assert_eq!(Err(ProtocolError::OutOfTurn), proto.handshake(again, 200));
}
