//! Matchmaking, round resolution, timeouts and disconnects.

use shotgun_arena::Action;
use shotgun_arena::ArenaServer;
use shotgun_arena::ArenaService;
use shotgun_arena::ParsedLine;
use shotgun_arena::ProtocolError;
use shotgun_arena::RoundAction;

#[test]
fn main_it_works() {}

/// Queues the two connections and returns the id of the session they share.
fn pair(server: &mut ArenaServer, a: u64, b: u64, now: u64) -> u64 {
    let first = server.request_new_game(a, format!("player{}", a), now).unwrap();
    assert_eq!(0, first.len());
    let second = server.request_new_game(b, format!("player{}", b), now).unwrap();
    assert_eq!(2, second.len());
    match &second[0].line {
        ParsedLine::MultiplexedMessage { game_id, .. } => *game_id,
        other => panic!("expected a session message, got {:?}", other),
    }
}

#[test]
fn fifo_matchmaking() {
    let mut server = ArenaServer::new();
    assert_eq!(0, server.request_new_game(1, "Ann".into(), 0).unwrap().len());
    let paired = server.request_new_game(2, "Bob".into(), 0).unwrap();
    assert_eq!(2, paired.len());
    assert_eq!(1, paired[0].conn);
    assert_eq!(
        ParsedLine::MultiplexedMessage {
            game_id: 0,
            action: Action::NewGame { opponent: "Bob".into() },
        },
        paired[0].line
    );
    assert_eq!(2, paired[1].conn);
    assert_eq!(
        ParsedLine::MultiplexedMessage {
            game_id: 0,
            action: Action::NewGame { opponent: "Ann".into() },
        },
        paired[1].line
    );
    assert_eq!(0, server.request_new_game(3, "Cid".into(), 5).unwrap().len());
    let later = server.request_new_game(4, "Dee".into(), 5).unwrap();
    assert_eq!(2, later.len());
    match later[0].line {
        ParsedLine::MultiplexedMessage { game_id, .. } => assert_eq!(1, game_id),
        ref other => panic!("expected a session message, got {:?}", other),
    }
    assert_eq!(3, later[0].conn);
    assert_eq!(4, later[1].conn);
    assert_eq!(2, server.arenas.len());
}

#[test]
fn duplicate_request_rejected() {
    let mut server = ArenaServer::new();
    pair(&mut server, 1, 2, 0);
    assert_eq!(
        Err(ProtocolError::DuplicateRequest),
        server.request_new_game(1, "Ann".into(), 1)
    );
    assert_eq!(0, server.request_new_game(3, "Cid".into(), 1).unwrap().len());
    assert_eq!(
        Err(ProtocolError::DuplicateRequest),
        server.request_new_game(3, "Cid".into(), 2)
    );
}

#[test]
fn unknown_session_answered_with_error_end() {
    let mut server = ArenaServer::new();
    let replies = server.submit_action(9, 77, RoundAction::Load, 0).unwrap();
    assert_eq!(1, replies.len());
    assert_eq!(9, replies[0].conn);
    assert_eq!(
        ParsedLine::MultiplexedMessage { game_id: 77, action: Action::ErrorEnd },
        replies[0].line
    );
    assert_eq!(0, server.arenas.len());
}

#[test]
fn foreign_session_answered_with_error_end() {
    let mut server = ArenaServer::new();
    let id = pair(&mut server, 1, 2, 0);
    let replies = server.submit_action(3, id, RoundAction::Shoot, 0).unwrap();
    assert_eq!(1, replies.len());
    assert_eq!(3, replies[0].conn);
    assert_eq!(
        ParsedLine::MultiplexedMessage { game_id: id, action: Action::ErrorEnd },
        replies[0].line
    );
    assert_eq!(1, server.arenas.len());
}

#[test]
fn empty_shot_versus_duck() {
    let mut server = ArenaServer::new();
    let id = pair(&mut server, 1, 2, 0);
    assert_eq!(0, server.submit_action(1, id, RoundAction::Shoot, 1).unwrap().len());
    let replies = server.submit_action(2, id, RoundAction::Duck, 2).unwrap();
    assert_eq!(2, replies.len());
    let report = ParsedLine::MultiplexedMessage {
        game_id: id,
        action: Action::RoundResult { a: RoundAction::Klick, b: RoundAction::Duck },
    };
    assert_eq!(1, replies[0].conn);
    assert_eq!(report, replies[0].line);
    assert_eq!(2, replies[1].conn);
    assert_eq!(report, replies[1].line);
    assert_eq!(1, server.arenas.len());
}

#[test]
fn loaded_shot_kills_loader() {
    let mut server = ArenaServer::new();
    let id = pair(&mut server, 1, 2, 0);
    assert_eq!(0, server.submit_action(1, id, RoundAction::Load, 1).unwrap().len());
    let first = server.submit_action(2, id, RoundAction::Load, 2).unwrap();
    assert_eq!(2, first.len());
    assert_eq!(0, server.submit_action(1, id, RoundAction::Shoot, 3).unwrap().len());
    let second = server.submit_action(2, id, RoundAction::Load, 4).unwrap();
    assert_eq!(4, second.len());
    let report = ParsedLine::MultiplexedMessage {
        game_id: id,
        action: Action::RoundResult { a: RoundAction::Shoot, b: RoundAction::Load },
    };
    assert_eq!(report, second[0].line);
    assert_eq!(report, second[1].line);
    assert_eq!(1, second[2].conn);
    assert_eq!(
        ParsedLine::MultiplexedMessage { game_id: id, action: Action::WinGame },
        second[2].line
    );
    assert_eq!(2, second[3].conn);
    assert_eq!(
        ParsedLine::MultiplexedMessage { game_id: id, action: Action::LoseGame },
        second[3].line
    );
    assert_eq!(0, server.arenas.len());
}

#[test]
fn mutual_shots_end_in_stalemate() {
    let mut server = ArenaServer::new();
    let id = pair(&mut server, 1, 2, 0);
    server.submit_action(1, id, RoundAction::Load, 1).unwrap();
    server.submit_action(2, id, RoundAction::Load, 1).unwrap();
    server.submit_action(1, id, RoundAction::Shoot, 2).unwrap();
    let replies = server.submit_action(2, id, RoundAction::Shoot, 2).unwrap();
    assert_eq!(4, replies.len());
    let terminal = ParsedLine::MultiplexedMessage { game_id: id, action: Action::ErrorEnd };
    assert_eq!(1, replies[2].conn);
    assert_eq!(terminal, replies[2].line);
    assert_eq!(2, replies[3].conn);
    assert_eq!(terminal, replies[3].line);
    assert_eq!(0, server.arenas.len());
}

#[test]
fn second_submission_is_out_of_turn() {
    let mut server = ArenaServer::new();
    let id = pair(&mut server, 1, 2, 0);
    assert_eq!(0, server.submit_action(1, id, RoundAction::Load, 1).unwrap().len());
    assert_eq!(
        Err(ProtocolError::OutOfTurn),
        server.submit_action(1, id, RoundAction::Shoot, 2)
    );
}

#[test]
fn deadline_substitutes_timeout() {
    let mut server = ArenaServer::new();
    let id = pair(&mut server, 1, 2, 0);
    assert_eq!(0, server.submit_action(1, id, RoundAction::Load, 10).unwrap().len());
    assert_eq!(0, server.handle_deadline(id, 150).len());
    let replies = server.handle_deadline(id, 200);
    assert_eq!(2, replies.len());
    let report = ParsedLine::MultiplexedMessage {
        game_id: id,
        action: Action::RoundResult { a: RoundAction::Load, b: RoundAction::Timeout },
    };
    assert_eq!(report, replies[0].line);
    assert_eq!(report, replies[1].line);
    assert_eq!(1, server.arenas.len());
}

#[test]
fn deadline_for_finished_session_does_nothing() {
    let mut server = ArenaServer::new();
    assert_eq!(0, server.handle_deadline(42, 1000).len());
}

#[test]
fn disconnect_notifies_peer() {
    let mut server = ArenaServer::new();
    let id = pair(&mut server, 1, 2, 0);
    let replies = server.disconnect(1);
    assert_eq!(1, replies.len());
    assert_eq!(2, replies[0].conn);
    assert_eq!(
        ParsedLine::MultiplexedMessage { game_id: id, action: Action::ErrorEnd },
        replies[0].line
    );
    assert_eq!(0, server.arenas.len());
    let after = server.submit_action(2, id, RoundAction::Load, 5).unwrap();
    assert_eq!(
        ParsedLine::MultiplexedMessage { game_id: id, action: Action::ErrorEnd },
        after[0].line
    );
}

#[test]
fn disconnect_leaves_queue_silently() {
    let mut server = ArenaServer::new();
    assert_eq!(0, server.request_new_game(5, "Eve".into(), 0).unwrap().len());
    assert_eq!(0, server.disconnect(5).len());
    assert_eq!(0, server.waiting_queue.len());
    assert_eq!(0, server.request_new_game(6, "Fay".into(), 1).unwrap().len());
    assert_eq!(1, server.waiting_queue.len());
}

#[test]
fn service_routes_and_rejects() {
    let mut server = ArenaServer::new();
    let ann = ArenaService::new(1, "Ann".into());
    let bob = ArenaService::new(2, "Bob".into());
    assert_eq!(0, ann.call(&mut server, ParsedLine::RequestNewGame, 0).unwrap().len());
    let paired = bob.call(&mut server, ParsedLine::RequestNewGame, 0).unwrap();
    assert_eq!(2, paired.len());
    let hello = ParsedLine::ClientHello {
        nickname: "Ann".into(),
        programming_language: "rust".into(),
    };
    assert_eq!(Err(ProtocolError::OutOfTurn), ann.call(&mut server, hello, 1));
    let server_only = ParsedLine::MultiplexedMessage { game_id: 0, action: Action::WinGame };
    assert_eq!(Err(ProtocolError::OutOfTurn), ann.call(&mut server, server_only, 1));
    let input = ParsedLine::MultiplexedMessage {
        game_id: 0,
        action: Action::PlayerInput(RoundAction::Duck),
    };
    assert_eq!(0, ann.call(&mut server, input, 1).unwrap().len());
}
