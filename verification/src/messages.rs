//! The closed set of protocol messages and their spec-level values.

use vstd::prelude::*;

verus! {

/// One player's choice for a single duel round.
#[derive(Clone, Copy, Debug, PartialEq, Eq, Structural)]
pub enum RoundAction {
    /// The side gave no input before the round deadline; treated as a pass.
    Timeout,
    /// Hide; the sender cannot be killed this round.
    Duck,
    /// Load one bullet into the sender's ammo bag.
    Load,
    /// Fire one bullet; degrades to `Klick` when the ammo bag is empty.
    Shoot,
    /// Harmless no-op; also the reported form of a `Shoot` without ammo.
    Klick,
}

/// The payload carried inside a session-scoped message.
#[derive(Clone, Debug, PartialEq)]
pub enum Action {
    /// Starts a new duel in this session against the named opponent.
    NewGame { opponent: String },
    /// Terminal: the receiving side won its duel.
    WinGame,
    /// Terminal: the receiving side lost its duel.
    LoseGame,
    /// One side's input for the current round.
    PlayerInput(RoundAction),
    /// Both effective actions of a finished round.
    RoundResult { a: RoundAction, b: RoundAction },
    /// Terminal: the session ended abnormally.
    ErrorEnd,
}

/// Spec-level value of an [`Action`].
pub enum ActionV {
    NewGame { opponent: Seq<char> },
    WinGame,
    LoseGame,
    PlayerInput(RoundAction),
    RoundResult { a: RoundAction, b: RoundAction },
    ErrorEnd,
}

impl View for Action {
    type V = ActionV;

    open spec fn view(&self) -> ActionV {
        match self {
            Action::NewGame { opponent } => ActionV::NewGame { opponent: opponent@ },
            Action::WinGame => ActionV::WinGame,
            Action::LoseGame => ActionV::LoseGame,
            Action::PlayerInput(ra) => ActionV::PlayerInput(*ra),
            Action::RoundResult { a, b } => ActionV::RoundResult { a: *a, b: *b },
            Action::ErrorEnd => ActionV::ErrorEnd,
        }
    }
}

/// One complete protocol unit exchanged over the line-delimited stream.
#[derive(Clone, Debug, PartialEq)]
pub enum ParsedLine {
    /// A client's identity, sent first on every connection.
    ClientHello { nickname: String, programming_language: String },
    /// The server's acknowledgement; announces the round length in
    /// milliseconds.
    ServerHello { max_round_length: u64 },
    /// Asks the arena to queue the sender for matchmaking.
    RequestNewGame,
    /// A message about one duel session, addressed by its global id.
    MultiplexedMessage { game_id: u64, action: Action },
}

/// Spec-level value of a [`ParsedLine`].
pub enum LineV {
    ClientHello { nickname: Seq<char>, programming_language: Seq<char> },
    ServerHello { max_round_length: u64 },
    RequestNewGame,
    MultiplexedMessage { game_id: u64, action: ActionV },
}

impl View for ParsedLine {
    type V = LineV;

    open spec fn view(&self) -> LineV {
        match self {
            ParsedLine::ClientHello { nickname, programming_language } => LineV::ClientHello {
                nickname: nickname@,
                programming_language: programming_language@,
            },
            ParsedLine::ServerHello { max_round_length } => LineV::ServerHello {
                max_round_length: *max_round_length,
            },
            ParsedLine::RequestNewGame => LineV::RequestNewGame,
            ParsedLine::MultiplexedMessage { game_id, action } => LineV::MultiplexedMessage {
                game_id: *game_id,
                action: action@,
            },
        }
    }
}

impl ParsedLine {
    /// Builds the reply to a session message: same session id, new action.
    pub fn answer(&self, new_action: Action) -> (r: ParsedLine)
        requires
            self is MultiplexedMessage,
        ensures
            r@ == (LineV::MultiplexedMessage {
                game_id: self@->MultiplexedMessage_game_id,
                action: new_action@,
            }),
    {
        match self {
            ParsedLine::MultiplexedMessage { game_id, action: _ } => {
                ParsedLine::MultiplexedMessage { game_id: *game_id, action: new_action }
            },
            _ => vstd::pervasive::unreached(),
        }
    }
}

/// Why a line of text was not a valid message.
#[derive(Debug, PartialEq)]
pub enum ParseError {
    /// The action part (or the whole line) matched no known form; carries a
    /// description of the offending text.
    InvalidAction(String),
    /// The text before the `:` of a session message was not a session id.
    InvalidSessionId,
    /// A `ClientHello` was missing its field delimiter.
    MissingField,
    /// The millisecond field of a `ServerHello` was not a number.
    InvalidDuration,
}

/// Spec-level value of a [`ParseError`].
pub enum ParseErrorV {
    InvalidAction(Seq<char>),
    InvalidSessionId,
    MissingField,
    InvalidDuration,
}

impl View for ParseError {
    type V = ParseErrorV;

    open spec fn view(&self) -> ParseErrorV {
        match self {
            ParseError::InvalidAction(msg) => ParseErrorV::InvalidAction(msg@),
            ParseError::InvalidSessionId => ParseErrorV::InvalidSessionId,
            ParseError::MissingField => ParseErrorV::MissingField,
            ParseError::InvalidDuration => ParseErrorV::InvalidDuration,
        }
    }
}

/// Why a connection was failed at the protocol level.  Every one of these is
/// fatal to the offending connection.
#[derive(Clone, Copy, Debug, PartialEq, Eq, Structural)]
pub enum ProtocolError {
    /// The first message of the connection was not a `ClientHello`.
    InvalidHandshake,
    /// A session message named a session this connection has no part in.
    UnknownSession,
    /// A `RequestNewGame` from a player that already waits or plays.
    DuplicateRequest,
    /// A message that the connection's state does not allow.
    OutOfTurn,
}

/// Why the codec could not frame a line.
#[derive(Clone, Copy, Debug, PartialEq, Eq, Structural)]
pub enum FramingError {
    /// The bytes before the newline were not valid UTF-8.
    InvalidUtf8,
}

/// Turns a missing optional value into a `MissingField` parse error.
pub fn to_parse_error<T>(o: Option<T>) -> (r: Result<T, ParseError>)
    ensures
        o is Some <==> r is Ok,
        o is Some ==> r->Ok_0 == o->0,
        o is None ==> r->Err_0 is MissingField,
{
    match o {
        Some(v) => Ok(v),
        None => Err(ParseError::MissingField),
    }
}

} // verus!
