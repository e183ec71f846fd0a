//! A turn-based two-player duel arena spoken over a newline-delimited text
//! protocol.
//!
//! The crate provides the message grammar and line framing, the per-connection
//! handshake, the matchmaking registry that multiplexes many duels by session
//! id, and the round-resolution engine that turns two simultaneous player
//! actions into a deterministic outcome.  All of it is verified; the
//! surrounding transport (sockets, timers) is expected to feed decoded lines
//! in and carry replies out.

pub mod arena;
pub mod duel;
pub mod grammar;
pub mod messages;
pub mod networking;
pub mod text;

pub use arena::ArenaServer;
pub use arena::ArenaService;
pub use arena::WaitingPlayer;
pub use duel::GameState;
pub use duel::PlayerState;
pub use duel::Reply;
pub use duel::RoundOutcome;
pub use messages::Action;
pub use messages::ActionV;
pub use messages::FramingError;
pub use messages::LineV;
pub use messages::ParseError;
pub use messages::ParseErrorV;
pub use messages::ParsedLine;
pub use messages::ProtocolError;
pub use messages::RoundAction;
pub use messages::to_parse_error;
pub use text::follow_quoted_str;
