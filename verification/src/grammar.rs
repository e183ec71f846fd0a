//! The message grammar: the exact textual form of every message, an encoder
//! that emits it, and a strict decoder that accepts nothing else.

use vstd::prelude::*;
use vstd::string::StrSliceExecFns;
use vstd::string::StringExecFns;

use crate::messages::Action;
use crate::messages::ActionV;
use crate::messages::LineV;
use crate::messages::ParseError;
use crate::messages::ParseErrorV;
use crate::messages::ParsedLine;
use crate::messages::RoundAction;
use crate::text::digits_val;
use crate::text::dec_rep;
use crate::text::find_at;
use crate::text::find_pair_at;
use crate::text::find_char_in;
use crate::text::find_pair_in;
use crate::text::follow_quoted_str;
use crate::text::is_u64_digits;
use crate::text::lemma_find_at;
use crate::text::lemma_find_at_is;
use crate::text::lemma_find_pair_at;
use crate::text::lemma_find_pair_at_is;
use crate::text::lemma_scan_quoted_bounds;
use crate::text::lemma_scan_quoted_finds;
use crate::text::lemma_dec_rep_wf;
use crate::text::is_digit_char;
use crate::text::parse_u64_seg;
use crate::text::scan_quoted;
use crate::text::starts_with;
use crate::text::str_eq_str;
use crate::text::str_starts_with;
use crate::text::u64_to_string;

verus! {

broadcast use vstd::string::group_string_axioms;

// ---------------------------------------------------------------------------
// The textual form of each value
// ---------------------------------------------------------------------------
/// The bare name of a round action.
pub open spec fn round_action_text(ra: RoundAction) -> Seq<char> {
    match ra {
        RoundAction::Timeout => "Timeout"@,
        RoundAction::Duck => "Duck"@,
        RoundAction::Load => "Load"@,
        RoundAction::Shoot => "Shoot"@,
        RoundAction::Klick => "Klick"@,
    }
}

/// The textual form of an action.  A `PlayerInput` renders as the bare name
/// of its round action.
pub open spec fn action_text(av: ActionV) -> Seq<char> {
    match av {
        ActionV::WinGame => "WinGame"@,
        ActionV::LoseGame => "LoseGame"@,
        ActionV::ErrorEnd => "ErrorEnd"@,
        ActionV::PlayerInput(ra) => round_action_text(ra),
        ActionV::NewGame { opponent } => "NewGame { opponent: \""@ + opponent + "\" }"@,
        ActionV::RoundResult { a, b } => "RoundResult { a: "@ + round_action_text(a) + ", b: "@
            + round_action_text(b) + " }"@,
    }
}

/// The textual form of a whole protocol line (without the trailing newline).
pub open spec fn line_text(m: LineV) -> Seq<char> {
    match m {
        LineV::ClientHello { nickname, programming_language } => "Nickname: >"@ + nickname + "<>"@
            + programming_language,
        LineV::ServerHello { max_round_length } => "Shotgun Arena Server v0 :: max round length[ms]: "@
            + dec_rep(max_round_length as nat),
        LineV::RequestNewGame => "RequestNewGame"@,
        LineV::MultiplexedMessage { game_id, action } => dec_rep(game_id as nat) + ":"@
            + action_text(action),
    }
}

// ---------------------------------------------------------------------------
// The spec-level parser
// ---------------------------------------------------------------------------
/// The error value for text that matches no action form.
pub open spec fn invalid_action_v(s: Seq<char>) -> ParseErrorV {
    ParseErrorV::InvalidAction("invalid Action: \""@ + s + "\""@)
}

/// A round action is exactly one of the five bare names.
pub open spec fn parse_round_action_text(s: Seq<char>) -> Option<RoundAction> {
    if s == "Timeout"@ {
        Some(RoundAction::Timeout)
    } else if s == "Duck"@ {
        Some(RoundAction::Duck)
    } else if s == "Load"@ {
        Some(RoundAction::Load)
    } else if s == "Shoot"@ {
        Some(RoundAction::Shoot)
    } else if s == "Klick"@ {
        Some(RoundAction::Klick)
    } else {
        None
    }
}

/// Parses the action part of a session message: first the fixed terminal
/// names, then the two struct forms (the `NewGame` form walks its quoted
/// field with the escape-aware scanner), and last a bare round action.
pub open spec fn parse_action_text(s: Seq<char>) -> Result<ActionV, ParseErrorV> {
    if s == "WinGame"@ {
        Ok(ActionV::WinGame)
    } else if s == "LoseGame"@ {
        Ok(ActionV::LoseGame)
    } else if s == "ErrorEnd"@ {
        Ok(ActionV::ErrorEnd)
    } else if starts_with(s, "NewGame { opponent: \""@) {
        let p = "NewGame { opponent: \""@.len() as int;
        let e = scan_quoted(s, p, false);
        if e + 2 == s.len() && s.subrange(e, s.len() as int) == " }"@ {
            Ok(ActionV::NewGame { opponent: s.subrange(p, e - 1) })
        } else {
            Err(invalid_action_v(s))
        }
    } else if starts_with(s, "RoundResult { a: "@) {
        let p = "RoundResult { a: "@.len() as int;
        let c = find_at(s, ',', p);
        if c + 5 <= s.len() - 2 && s.subrange(c, c + 5) == ", b: "@ && s.subrange(
            s.len() - 2,
            s.len() as int,
        ) == " }"@ {
            match (parse_round_action_text(s.subrange(p, c)), parse_round_action_text(
                s.subrange(c + 5, s.len() - 2),
            )) {
                (Some(x), Some(y)) => Ok(ActionV::RoundResult { a: x, b: y }),
                _ => Err(invalid_action_v(s)),
            }
        } else {
            Err(invalid_action_v(s))
        }
    } else {
        match parse_round_action_text(s) {
            Some(ra) => Ok(ActionV::PlayerInput(ra)),
            None => Err(invalid_action_v(s)),
        }
    }
}

/// Parses one protocol line: the fixed `RequestNewGame` word, the two hello
/// forms, and otherwise a `{session id}:{action}` message split at the first
/// colon.
pub open spec fn parse_line_text(s: Seq<char>) -> Result<LineV, ParseErrorV> {
    if s == "RequestNewGame"@ {
        Ok(LineV::RequestNewGame)
    } else if starts_with(s, "Nickname: >"@) {
        let p = "Nickname: >"@.len() as int;
        let i = find_pair_at(s, '<', '>', p);
        if i == s.len() {
            Err(ParseErrorV::MissingField)
        } else {
            Ok(
                LineV::ClientHello {
                    nickname: s.subrange(p, i),
                    programming_language: s.subrange(i + 2, s.len() as int),
                },
            )
        }
    } else if starts_with(s, "Shotgun Arena Server v0 :: max round length[ms]: "@) {
        let p = "Shotgun Arena Server v0 :: max round length[ms]: "@.len() as int;
        let d = s.subrange(p, s.len() as int);
        if is_u64_digits(d) {
            Ok(LineV::ServerHello { max_round_length: digits_val(d) as u64 })
        } else {
            Err(ParseErrorV::InvalidDuration)
        }
    } else {
        let c = find_at(s, ':', 0);
        if c == s.len() {
            Err(invalid_action_v(s))
        } else {
            let idt = s.subrange(0, c);
            if !is_u64_digits(idt) {
                Err(ParseErrorV::InvalidSessionId)
            } else {
                match parse_action_text(s.subrange(c + 1, s.len() as int)) {
                    Ok(av) => Ok(
                        LineV::MultiplexedMessage { game_id: digits_val(idt) as u64, action: av },
                    ),
                    Err(e) => Err(e),
                }
            }
        }
    }
}

/// The spec-level value of an action parse result.
pub open spec fn action_res_view(r: Result<Action, ParseError>) -> Result<ActionV, ParseErrorV> {
    match r {
        Ok(a) => Ok(a@),
        Err(e) => Err(e@),
    }
}

/// The spec-level value of a line parse result.
pub open spec fn line_res_view(r: Result<ParsedLine, ParseError>) -> Result<LineV, ParseErrorV> {
    match r {
        Ok(m) => Ok(m@),
        Err(e) => Err(e@),
    }
}

// ---------------------------------------------------------------------------
// Encoding
// ---------------------------------------------------------------------------
/// The bare name of a round action.
pub fn round_action_str(ra: RoundAction) -> (r: &'static str)
    ensures
        r@ == round_action_text(ra),
{
    match ra {
        RoundAction::Timeout => "Timeout",
        RoundAction::Duck => "Duck",
        RoundAction::Load => "Load",
        RoundAction::Shoot => "Shoot",
        RoundAction::Klick => "Klick",
    }
}

/// Renders an action in its exact textual form.
pub fn action_string(act: &Action) -> (r: String)
    ensures
        r@ == action_text(act@),
{
    match act {
        Action::WinGame => String::from_str("WinGame"),
        Action::LoseGame => String::from_str("LoseGame"),
        Action::ErrorEnd => String::from_str("ErrorEnd"),
        Action::PlayerInput(ra) => String::from_str(round_action_str(*ra)),
        Action::NewGame { opponent } => {
            let mut s = String::from_str("NewGame { opponent: \"");
            s.append(opponent.as_str());
            s.append("\" }");
            s
        },
        Action::RoundResult { a, b } => {
            let mut s = String::from_str("RoundResult { a: ");
            s.append(round_action_str(*a));
            s.append(", b: ");
            s.append(round_action_str(*b));
            s.append(" }");
            s
        },
    }
}

impl ParsedLine {
    /// Renders the line in its exact textual form, without a newline.
    pub fn serialize(&self) -> (r: String)
        ensures
            r@ == line_text(self@),
    {
        match self {
            ParsedLine::ClientHello { nickname, programming_language } => {
                let mut s = String::from_str("Nickname: >");
                s.append(nickname.as_str());
                s.append("<>");
                s.append(programming_language.as_str());
                s
            },
            ParsedLine::ServerHello { max_round_length } => {
                let mut s = String::from_str("Shotgun Arena Server v0 :: max round length[ms]: ");
                let num = u64_to_string(*max_round_length);
                s.append(num.as_str());
                s
            },
            ParsedLine::RequestNewGame => String::from_str("RequestNewGame"),
            ParsedLine::MultiplexedMessage { game_id, action } => {
                let mut s = u64_to_string(*game_id);
                s.append(":");
                let a = action_string(action);
                s.append(a.as_str());
                s
            },
        }
    }
}

// ---------------------------------------------------------------------------
// Decoding
// ---------------------------------------------------------------------------
/// Builds the `InvalidAction` error that quotes the offending text.
fn invalid_action_err(s: &str) -> (r: ParseError)
    ensures
        r@ == invalid_action_v(s@),
{
    let mut m = String::from_str("invalid Action: \"");
    m.append(s);
    m.append("\"");
    ParseError::InvalidAction(m)
}

/// Recognises a bare round action name.
fn round_action_of_str(s: &str) -> (r: Option<RoundAction>)
    ensures
        r == parse_round_action_text(s@),
{
    if str_eq_str(s, "Timeout") {
        Some(RoundAction::Timeout)
    } else if str_eq_str(s, "Duck") {
        Some(RoundAction::Duck)
    } else if str_eq_str(s, "Load") {
        Some(RoundAction::Load)
    } else if str_eq_str(s, "Shoot") {
        Some(RoundAction::Shoot)
    } else if str_eq_str(s, "Klick") {
        Some(RoundAction::Klick)
    } else {
        None
    }
}

impl RoundAction {
    /// Parses a bare round action name; anything else is an `InvalidAction`
    /// that quotes the offending text.
    pub fn parse(s: &str) -> (r: Result<RoundAction, ParseError>)
        ensures
            parse_round_action_text(s@) is Some ==> r is Ok && Some(r->Ok_0)
                == parse_round_action_text(s@),
            parse_round_action_text(s@) is None ==> r is Err && r->Err_0@ == invalid_action_v(s@),
    {
        match round_action_of_str(s) {
            Some(ra) => Ok(ra),
            None => Err(invalid_action_err(s)),
        }
    }
}

impl Action {
    /// Parses the action part of a session message, strictly.
    pub fn parse(s: &str) -> (r: Result<Action, ParseError>)
        ensures
            action_res_view(r) == parse_action_text(s@),
    {
        if str_eq_str(s, "WinGame") {
            return Ok(Action::WinGame);
        }
        if str_eq_str(s, "LoseGame") {
            return Ok(Action::LoseGame);
        }
        if str_eq_str(s, "ErrorEnd") {
            return Ok(Action::ErrorEnd);
        }
        if str_starts_with(s, "NewGame { opponent: \"") {
            let p = "NewGame { opponent: \"".unicode_len();
            let len = s.unicode_len();
            proof {
                reveal_strlit("NewGame { opponent: \"");
            }
            let e = follow_quoted_str(s, p - 1);
            proof {
                lemma_scan_quoted_bounds(s@, p as int, false);
            }
            if len >= 2 && e == len - 2 {
                let close = s.substring_char(e, len);
                if str_eq_str(close, " }") {
                    let opponent = String::from_str(s.substring_char(p, e - 1));
                    return Ok(Action::NewGame { opponent });
                }
            }
            return Err(invalid_action_err(s));
        }
        if str_starts_with(s, "RoundResult { a: ") {
            let p = "RoundResult { a: ".unicode_len();
            let len = s.unicode_len();
            proof {
                reveal_strlit("RoundResult { a: ");
            }
            let c = find_char_in(s, ',', p);
            proof {
                lemma_find_at(s@, ',', p as int);
            }
            if len >= 7 && c <= len - 7 {
                let mid = s.substring_char(c, c + 5);
                let tail = s.substring_char(len - 2, len);
                if str_eq_str(mid, ", b: ") && str_eq_str(tail, " }") {
                    let x = round_action_of_str(s.substring_char(p, c));
                    let y = round_action_of_str(s.substring_char(c + 5, len - 2));
                    match (x, y) {
                        (Some(x), Some(y)) => {
                            return Ok(Action::RoundResult { a: x, b: y });
                        },
                        _ => {
                            return Err(invalid_action_err(s));
                        },
                    }
                }
            }
            return Err(invalid_action_err(s));
        }
        match round_action_of_str(s) {
            Some(ra) => Ok(Action::PlayerInput(ra)),
            None => Err(invalid_action_err(s)),
        }
    }
}

impl ParsedLine {
    /// Parses one protocol line, strictly: anything but an exact textual
    /// form is a `ParseError`.
    pub fn parse(s: &str) -> (r: Result<ParsedLine, ParseError>)
        ensures
            line_res_view(r) == parse_line_text(s@),
    {
        if str_eq_str(s, "RequestNewGame") {
            return Ok(ParsedLine::RequestNewGame);
        }
        if str_starts_with(s, "Nickname: >") {
            let p = "Nickname: >".unicode_len();
            let len = s.unicode_len();
            let i = find_pair_in(s, '<', '>', p);
            proof {
                lemma_find_pair_at(s@, '<', '>', p as int);
            }
            if i == len {
                return Err(ParseError::MissingField);
            }
            let nickname = String::from_str(s.substring_char(p, i));
            let programming_language = String::from_str(s.substring_char(i + 2, len));
            return Ok(ParsedLine::ClientHello { nickname, programming_language });
        }
        if str_starts_with(s, "Shotgun Arena Server v0 :: max round length[ms]: ") {
            let p = "Shotgun Arena Server v0 :: max round length[ms]: ".unicode_len();
            let len = s.unicode_len();
            return match parse_u64_seg(s, p, len) {
                Some(v) => Ok(ParsedLine::ServerHello { max_round_length: v }),
                None => Err(ParseError::InvalidDuration),
            };
        }
        let len = s.unicode_len();
        let c = find_char_in(s, ':', 0);
        proof {
            lemma_find_at(s@, ':', 0);
        }
        if c == len {
            return Err(invalid_action_err(s));
        }
        match parse_u64_seg(s, 0, c) {
            None => Err(ParseError::InvalidSessionId),
            Some(id) => {
                match Action::parse(s.substring_char(c + 1, len)) {
                    Ok(act) => Ok(ParsedLine::MultiplexedMessage { game_id: id, action: act }),
                    Err(e) => Err(e),
                }
            },
        }
    }
}

// ---------------------------------------------------------------------------
// Round trip
// ---------------------------------------------------------------------------
/// An opponent name the grammar can carry faithfully: free of quotes and
/// backslashes, which the quoted-field form does not escape.
pub open spec fn wf_opponent(op: Seq<char>) -> bool {
    forall|j: int| 0 <= j < op.len() ==> #[trigger] op[j] != '"' && op[j] != '\\'
}

/// A nickname the grammar can carry faithfully: free of the `<>` delimiter.
pub open spec fn wf_nickname(n: Seq<char>) -> bool {
    forall|j: int| 0 <= j && j + 1 < n.len() ==> !(#[trigger] n[j] == '<' && n[j + 1] == '>')
}

/// An action whose free-text field, if any, is delimiter-free.
pub open spec fn wf_action(av: ActionV) -> bool {
    match av {
        ActionV::NewGame { opponent } => wf_opponent(opponent),
        _ => true,
    }
}

/// A line whose free-text fields are delimiter-free; every other line is
/// representable as it stands.
pub open spec fn wf_line(m: LineV) -> bool {
    match m {
        LineV::ClientHello { nickname, .. } => wf_nickname(nickname),
        LineV::MultiplexedMessage { action, .. } => wf_action(action),
        _ => true,
    }
}

/// Parsing a bare round action name gives that action back.
proof fn lemma_round_action_parse(ra: RoundAction)
    ensures
        parse_round_action_text(round_action_text(ra)) == Some(ra),
        4 <= round_action_text(ra).len() <= 7,
{
    lemma_round_action_facts();
    match ra {
        RoundAction::Timeout => {},
        RoundAction::Duck => {},
        RoundAction::Load => {},
        RoundAction::Shoot => {},
        RoundAction::Klick => {},
    }
}

/// The concrete lengths and leading characters of the five round action
/// names, from which their pairwise distinctness follows.
proof fn lemma_round_action_facts()
    ensures
        "Timeout"@.len() == 7 && "Timeout"@[0] == 'T',
        "Duck"@.len() == 4 && "Duck"@[0] == 'D',
        "Load"@.len() == 4 && "Load"@[0] == 'L',
        "Shoot"@.len() == 5 && "Shoot"@[0] == 'S',
        "Klick"@.len() == 5 && "Klick"@[0] == 'K',
{
    reveal_strlit("Timeout");
    reveal_strlit("Duck");
    reveal_strlit("Load");
    reveal_strlit("Shoot");
    reveal_strlit("Klick");
}

/// No round action name contains a comma.
proof fn lemma_round_action_no_comma(ra: RoundAction)
    ensures
        forall|j: int|
            0 <= j < round_action_text(ra).len() ==> #[trigger] round_action_text(ra)[j] != ',',
{
    reveal_strlit("Timeout");
    reveal_strlit("Duck");
    reveal_strlit("Load");
    reveal_strlit("Shoot");
    reveal_strlit("Klick");
    match ra {
        RoundAction::Timeout => {},
        RoundAction::Duck => {},
        RoundAction::Load => {},
        RoundAction::Shoot => {},
        RoundAction::Klick => {},
    }
}

/// The concrete lengths and distinguishing characters of the fixed parts of
/// the action grammar.
proof fn lemma_action_literal_facts()
    ensures
        "WinGame"@.len() == 7 && "WinGame"@[0] == 'W',
        "LoseGame"@.len() == 8 && "LoseGame"@[0] == 'L',
        "ErrorEnd"@.len() == 8 && "ErrorEnd"@[0] == 'E',
        "NewGame { opponent: \""@.len() == 21 && "NewGame { opponent: \""@[0] == 'N',
        "RoundResult { a: "@.len() == 17 && "RoundResult { a: "@[0] == 'R',
        ", b: "@.len() == 5 && ", b: "@[0] == ',',
        " }"@.len() == 2 && " }"@[0] == ' ' && " }"@[1] == '}',
        "\" }"@.len() == 3 && "\" }"@[0] == '"' && "\" }"@[1] == ' ' && "\" }"@[2] == '}',
{
    reveal_strlit("WinGame");
    reveal_strlit("LoseGame");
    reveal_strlit("ErrorEnd");
    reveal_strlit("NewGame { opponent: \"");
    reveal_strlit("\" }");
    reveal_strlit(" }");
    reveal_strlit("RoundResult { a: ");
    reveal_strlit(", b: ");
}

/// Parsing the rendered form of a well-formed action gives it back.
proof fn lemma_action_round_trip(av: ActionV)
    requires
        wf_action(av),
    ensures
        parse_action_text(action_text(av)) == Ok::<ActionV, ParseErrorV>(av),
{
    lemma_action_literal_facts();
    let t = action_text(av);
    match av {
        ActionV::WinGame => {},
        ActionV::LoseGame => {},
        ActionV::ErrorEnd => {},
        ActionV::PlayerInput(ra) => {
            lemma_round_action_parse(ra);
            lemma_round_action_facts();
            match ra {
                RoundAction::Timeout => {},
                RoundAction::Duck => {},
                RoundAction::Load => {},
                RoundAction::Shoot => {},
                RoundAction::Klick => {},
            }
        },
        ActionV::NewGame { opponent } => {
            let pn = "NewGame { opponent: \""@;
            let q = "\" }"@;
            assert(t.len() == 21 + opponent.len() + 3);
            assert(t != "WinGame"@);
            assert(t != "LoseGame"@);
            assert(t != "ErrorEnd"@);
            assert(t.subrange(0, 21) =~= pn);
            assert(starts_with(t, pn));
            let k = 21 + opponent.len() as int;
            assert(t[k] == q[0]);
            assert(t[k] == '"');
            assert(forall|j: int| 21 <= j < k ==> t[j] == opponent[j - 21]);
            lemma_scan_quoted_finds(t, 21, k);
            let e = k + 1;
            assert(e + 2 == t.len());
            assert(t[e] == q[1]);
            assert(t[e + 1] == q[2]);
            assert(t.subrange(e, t.len() as int) =~= " }"@);
            assert(t.subrange(21, e - 1) =~= opponent);
        },
        ActionV::RoundResult { a, b } => {
            lemma_round_action_parse(a);
            lemma_round_action_parse(b);
            lemma_round_action_no_comma(a);
            let pr = "RoundResult { a: "@;
            let mid = ", b: "@;
            let q = " }"@;
            let ta = round_action_text(a);
            let tb = round_action_text(b);
            assert(t.len() == 17 + ta.len() + 5 + tb.len() + 2);
            assert(t != "WinGame"@);
            assert(t != "LoseGame"@);
            assert(t != "ErrorEnd"@);
            assert(t[0] == pr[0]);
            assert(!starts_with(t, "NewGame { opponent: \""@)) by {
                if starts_with(t, "NewGame { opponent: \""@) {
                    assert(t.subrange(0, 21)[0] == t[0]);
                    assert(false);
                }
            }
            assert(t.subrange(0, 17) =~= pr);
            assert(starts_with(t, pr));
            let cpos = 17 + ta.len() as int;
            assert(forall|j: int| 17 <= j < cpos ==> t[j] == ta[j - 17]);
            assert(t[cpos] == mid[0]);
            lemma_find_at_is(t, ',', 17, cpos);
            assert(t.subrange(cpos, cpos + 5) =~= mid);
            assert(t.subrange(t.len() - 2, t.len() as int) =~= q);
            assert(t.subrange(17, cpos) =~= ta);
            assert(t.subrange(cpos + 5, t.len() - 2) =~= tb);
        },
    }
}

/// The concrete lengths and distinguishing characters of the fixed parts of
/// the line grammar.
proof fn lemma_line_literal_facts()
    ensures
        "RequestNewGame"@.len() == 14 && "RequestNewGame"@[0] == 'R',
        "Nickname: >"@.len() == 11 && "Nickname: >"@[0] == 'N',
        "<>"@.len() == 2 && "<>"@[0] == '<' && "<>"@[1] == '>',
        "Shotgun Arena Server v0 :: max round length[ms]: "@.len() == 49
            && "Shotgun Arena Server v0 :: max round length[ms]: "@[0] == 'S',
        ":"@.len() == 1 && ":"@[0] == ':',
{
    reveal_strlit("RequestNewGame");
    reveal_strlit("Nickname: >");
    reveal_strlit("<>");
    reveal_strlit("Shotgun Arena Server v0 :: max round length[ms]: ");
    reveal_strlit(":");
}

/// Round trip: every constructible, well-formed message parses back from its
/// own rendering to exactly itself.
pub proof fn lemma_parse_serialize_round_trip(m: LineV)
    requires
        wf_line(m),
    ensures
        parse_line_text(line_text(m)) == Ok::<LineV, ParseErrorV>(m),
{
    lemma_line_literal_facts();
    let t = line_text(m);
    match m {
        LineV::RequestNewGame => {},
        LineV::ClientHello { nickname, programming_language } => {
            let pfx = "Nickname: >"@;
            let dl = "<>"@;
            let n = nickname;
            let l = programming_language;
            assert(t.len() == 11 + n.len() + 2 + l.len());
            assert(t[0] == pfx[0]);
            assert(t != "RequestNewGame"@);
            assert(t.subrange(0, 11) =~= pfx);
            assert(starts_with(t, pfx));
            let k = 11 + n.len() as int;
            assert(forall|j: int| 11 <= j < k ==> t[j] == n[j - 11]);
            assert(t[k] == dl[0]);
            assert(t[k + 1] == dl[1]);
            assert(forall|j: int|
                11 <= j < k ==> !(#[trigger] t[j] == '<' && t[j + 1] == '>')) by {
                assert forall|j: int| 11 <= j < k implies !(#[trigger] t[j] == '<' && t[j + 1]
                    == '>') by {
                    if j + 1 < k {
                        assert(t[j + 1] == n[j + 1 - 11]);
                    } else {
                        assert(t[j + 1] == '<');
                    }
                }
            }
            lemma_find_pair_at_is(t, '<', '>', 11, k);
            assert(t.subrange(11, k) =~= n);
            assert(t.subrange(k + 2, t.len() as int) =~= l);
        },
        LineV::ServerHello { max_round_length } => {
            let banner = "Shotgun Arena Server v0 :: max round length[ms]: "@;
            let d = dec_rep(max_round_length as nat);
            lemma_dec_rep_wf(max_round_length as nat);
            assert(t.len() == 49 + d.len());
            assert(t[0] == banner[0]);
            assert(t != "RequestNewGame"@);
            assert(!starts_with(t, "Nickname: >"@)) by {
                if starts_with(t, "Nickname: >"@) {
                    assert(t.subrange(0, 11)[0] == t[0]);
                    assert(false);
                }
            }
            assert(t.subrange(0, 49) =~= banner);
            assert(starts_with(t, banner));
            assert(t.subrange(49, t.len() as int) =~= d);
            assert(digits_val(d) <= u64::MAX);
        },
        LineV::MultiplexedMessage { game_id, action } => {
            let d = dec_rep(game_id as nat);
            let a = action_text(action);
            lemma_dec_rep_wf(game_id as nat);
            lemma_action_round_trip(action);
            assert(t.len() == d.len() + 1 + a.len());
            assert(forall|j: int| 0 <= j < d.len() ==> t[j] == d[j]);
            assert(is_digit_char(t[0]));
            assert(t != "RequestNewGame"@) by {
                if t == "RequestNewGame"@ {
                    assert(t[0] == 'R');
                    assert(false);
                }
            }
            assert(!starts_with(t, "Nickname: >"@)) by {
                if starts_with(t, "Nickname: >"@) {
                    assert(t.subrange(0, 11)[0] == t[0]);
                    assert(t[0] == 'N');
                    assert(false);
                }
            }
            assert(!starts_with(t, "Shotgun Arena Server v0 :: max round length[ms]: "@)) by {
                if starts_with(t, "Shotgun Arena Server v0 :: max round length[ms]: "@) {
                    assert(t.subrange(0, 49)[0] == t[0]);
                    assert(t[0] == 'S');
                    assert(false);
                }
            }
            let cpos = d.len() as int;
            assert(t[cpos] == ":"@[0]);
            assert(forall|j: int| 0 <= j < cpos ==> is_digit_char(#[trigger] t[j]));
            assert(forall|j: int| 0 <= j < cpos ==> #[trigger] t[j] != ':');
            lemma_find_at_is(t, ':', 0, cpos);
            assert(t.subrange(0, cpos) =~= d);
            assert(t.subrange(cpos + 1, t.len() as int) =~= a);
        },
    }
}

} // verus!
