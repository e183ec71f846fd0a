//! Line framing over a byte stream, and the per-connection handshake.

use vstd::prelude::*;
use vstd::string::StrSliceExecFns;
use vstd::utf8::decode_utf8;
use vstd::utf8::encode_utf8;
use vstd::utf8::valid_utf8;

use crate::grammar::line_text;
use crate::grammar::parse_line_text;
use crate::messages::FramingError;
use crate::messages::LineV;
use crate::messages::ParseError;
use crate::messages::ParseErrorV;
use crate::messages::ParsedLine;
use crate::messages::ProtocolError;
use crate::text::find_at;
use crate::text::find_byte_in;
use crate::text::lemma_find_at;

verus! {

broadcast use vstd::string::group_string_axioms;

/// Where a connection stands in its lifecycle.
#[derive(Clone, Copy, Debug, PartialEq, Eq, Structural)]
pub enum ConnectionState {
    /// The transport is still being set up; no line has been exchanged.
    Connecting,
    /// The transport is up and the connection awaits the client's hello.
    Handshake,
    /// The handshake is done; matchmaking and session traffic may flow.
    ArenaMode,
}

/// Why a buffered line could not be turned into a message.
#[derive(Debug, PartialEq)]
pub enum DecodeError {
    /// The framing layer rejected the bytes.
    Framing(FramingError),
    /// The line was text but matched no message form.
    Parse(ParseError),
}

/// Spec-level value of a [`DecodeError`].
pub enum DecodeErrorV {
    Framing(FramingError),
    Parse(ParseErrorV),
}

impl View for DecodeError {
    type V = DecodeErrorV;

    open spec fn view(&self) -> DecodeErrorV {
        match self {
            DecodeError::Framing(f) => DecodeErrorV::Framing(*f),
            DecodeError::Parse(e) => DecodeErrorV::Parse(e@),
        }
    }
}

/// What decoding does to a buffer: without a newline it waits; otherwise it
/// removes the first line and the newline, and the line either fails UTF-8
/// decoding, fails the grammar, or yields a message.
pub open spec fn spec_decode(buf: Seq<u8>) -> (Seq<u8>, Result<Option<LineV>, DecodeErrorV>) {
    let i = find_at(buf, 10u8, 0);
    if i == buf.len() {
        (buf, Ok(None))
    } else {
        let line = buf.subrange(0, i);
        let rest = buf.subrange(i + 1, buf.len() as int);
        if !valid_utf8(line) {
            (rest, Err(DecodeErrorV::Framing(FramingError::InvalidUtf8)))
        } else {
            match parse_line_text(decode_utf8(line)) {
                Ok(m) => (rest, Ok(Some(m))),
                Err(e) => (rest, Err(DecodeErrorV::Parse(e))),
            }
        }
    }
}

/// The spec-level value of a decode result.
pub open spec fn decode_res_view(r: &Result<Option<ParsedLine>, DecodeError>) -> Result<
    Option<LineV>,
    DecodeErrorV,
> {
    match r {
        Ok(Some(m)) => Ok(Some(m@)),
        Ok(None) => Ok(None),
        Err(e) => Err(e@),
    }
}

/// Relies on `String::from_utf8`: it returns `Ok` exactly when the bytes are
/// valid UTF-8, and the returned string holds their decoding.
#[verifier::external_body]
fn utf8_to_string(bytes: Vec<u8>) -> (r: Option<String>)
    ensures
        r is Some <==> valid_utf8(bytes@),
        r is Some ==> r->0@ == decode_utf8(bytes@),
{
    match String::from_utf8(bytes) {
        Ok(s) => Some(s),
        Err(_) => None,
    }
}

/// Frames newline-delimited messages in and out of byte buffers; stateless,
/// one per connection.
pub struct LineCodec;

impl LineCodec {
    /// Appends the rendered message and a single trailing newline to the
    /// outgoing buffer.  Newline bytes inside fields are not escaped; a field
    /// that holds one corrupts the framing, a documented limitation.
    pub fn encode(msg: &ParsedLine, buf: &mut Vec<u8>)
        ensures
            final(buf)@ == old(buf)@ + encode_utf8(line_text(msg@)) + seq![10u8],
    {
        let s = msg.serialize();
        let bytes = s.as_str().as_bytes_vec();
        let n = bytes.len();
        let mut i: usize = 0;
        while i < n
            invariant
                0 <= i <= n,
                n == bytes@.len(),
                buf@ == old(buf)@ + bytes@.take(i as int),
            decreases n - i,
        {
            buf.push(bytes[i]);
            proof {
                assert(old(buf)@ + bytes@.take(i as int) + seq![bytes@[i as int]] =~= old(buf)@
                    + bytes@.take(i + 1));
            }
            i += 1;
        }
        proof {
            assert(bytes@.take(n as int) =~= bytes@);
        }
        buf.push(10u8);
        proof {
            assert((old(buf)@ + bytes@).push(10u8) =~= old(buf)@ + bytes@ + seq![10u8]);
        }
    }

    /// Scans the buffer for the first newline.  Without one it reports "needs
    /// more data" (`Ok(None)`) and leaves the buffer alone.  Otherwise it
    /// removes the line and the newline from the buffer and decodes the line:
    /// bytes that are not UTF-8 are a framing error, text that fits no form is
    /// a parse error, and anything else is the parsed message.
    pub fn decode(buf: &mut Vec<u8>) -> (r: Result<Option<ParsedLine>, DecodeError>)
        ensures
            final(buf)@ == spec_decode(old(buf)@).0,
            decode_res_view(&r) == spec_decode(old(buf)@).1,
    {
        let n = buf.len();
        let i = find_byte_in(buf, 10u8, 0);
        proof {
            lemma_find_at(buf@, 10u8, 0);
        }
        if i == n {
            return Ok(None);
        }
        let mut line: Vec<u8> = Vec::new();
        let mut j: usize = 0;
        while j < i
            invariant
                0 <= j <= i < n,
                n == buf@.len(),
                buf == old(buf),
                line@ == buf@.subrange(0, j as int),
            decreases i - j,
        {
            line.push(buf[j]);
            proof {
                assert(buf@.subrange(0, j as int).push(buf@[j as int]) =~= buf@.subrange(
                    0,
                    j + 1,
                ));
            }
            j += 1;
        }
        let mut rest: Vec<u8> = Vec::new();
        let mut k: usize = i + 1;
        while k < n
            invariant
                i + 1 <= k <= n,
                n == buf@.len(),
                buf == old(buf),
                rest@ == buf@.subrange(i + 1, k as int),
            decreases n - k,
        {
            rest.push(buf[k]);
            proof {
                assert(buf@.subrange(i + 1, k as int).push(buf@[k as int]) =~= buf@.subrange(
                    i + 1,
                    k + 1,
                ));
            }
            k += 1;
        }
        *buf = rest;
        match utf8_to_string(line) {
            None => Err(DecodeError::Framing(FramingError::InvalidUtf8)),
            Some(s) => match ParsedLine::parse(s.as_str()) {
                Ok(m) => Ok(Some(m)),
                Err(e) => Err(DecodeError::Parse(e)),
            },
        }
    }
}

/// Per-connection protocol driver: holds the handshake state and, once a
/// client is admitted, its hello.
pub struct LineProto {
    /// The admitted client's hello, once the handshake has succeeded.
    pub client_hello: Option<ParsedLine>,
    /// Where the connection stands.
    pub state: ConnectionState,
}

impl LineProto {
    /// A fresh driver awaiting the client's hello.
    pub fn new() -> (r: LineProto)
        ensures
            r.client_hello is None,
            r.state is Handshake,
    {
        LineProto { client_hello: None, state: ConnectionState::Handshake }
    }

    /// The server side of the handshake, fed the connection's first decoded
    /// message.  Exactly a `ClientHello` is admitted: it is recorded, the
    /// connection becomes established, and the reply announces the round
    /// length.  Any other first message fails the connection with
    /// `InvalidHandshake` and nothing changes.  On an already-established
    /// connection a further handshake attempt is out of turn.
    pub fn handshake(&mut self, first: ParsedLine, max_round_length_ms: u64) -> (r: Result<
        ParsedLine,
        ProtocolError,
    >)
        ensures
            old(self).state is ArenaMode ==> r == Err::<ParsedLine, ProtocolError>(
                ProtocolError::OutOfTurn,
            ) && *final(self) == *old(self),
            !(old(self).state is ArenaMode) && first is ClientHello ==> {
                &&& r is Ok
                &&& r->Ok_0@ == (LineV::ServerHello { max_round_length: max_round_length_ms })
                &&& final(self).state is ArenaMode
                &&& final(self).client_hello == Some(first)
            },
            !(old(self).state is ArenaMode) && !(first is ClientHello) ==> r == Err::<
                ParsedLine,
                ProtocolError,
            >(ProtocolError::InvalidHandshake) && *final(self) == *old(self),
    {
        match self.state {
            ConnectionState::ArenaMode => Err(ProtocolError::OutOfTurn),
            _ => {
                match &first {
                    ParsedLine::ClientHello { .. } => {
                        self.client_hello = Some(first);
                        self.state = ConnectionState::ArenaMode;
                        Ok(ParsedLine::ServerHello { max_round_length: max_round_length_ms })
                    },
                    _ => Err(ProtocolError::InvalidHandshake),
                }
            },
        }
    }
}

} // verus!
