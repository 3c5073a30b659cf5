//! The duplex session: per-frame encoding and the sequential state machine
//! that one upgraded connection runs until it terminates.
//!
//! A session is `Open` from the upgrade until a Close frame, a receive
//! failure or a send failure, each of which makes it `Closed` for good.
//! Every inbound text frame is handled to completion — normalize, execute,
//! encode, send — before the next frame is read; binary and non-Close
//! control frames are ignored.
use vstd::prelude::*;

use crate::interfaces::{
    AppError, AppErrorModel, QueryResponse, QueryResponseModel, outcome_model,
};
use crate::normalize::{normalize_text, normalized};
use crate::text::push_char;

verus! {

/// The lower-case hex digit of one value below sixteen.
pub open spec fn hex_digit(n: int) -> char {
    if n == 0 {
        '0'
    } else if n == 1 {
        '1'
    } else if n == 2 {
        '2'
    } else if n == 3 {
        '3'
    } else if n == 4 {
        '4'
    } else if n == 5 {
        '5'
    } else if n == 6 {
        '6'
    } else if n == 7 {
        '7'
    } else if n == 8 {
        '8'
    } else if n == 9 {
        '9'
    } else if n == 10 {
        'a'
    } else if n == 11 {
        'b'
    } else if n == 12 {
        'c'
    } else if n == 13 {
        'd'
    } else if n == 14 {
        'e'
    } else {
        'f'
    }
}

/// How one character is written inside a JSON string literal: quote and
/// backslash escaped, the named control characters by their short escapes,
/// any other control character as a four-digit escape, everything else
/// verbatim.
pub open spec fn escape_char(c: char) -> Seq<char> {
    if c == '"' {
        seq!['\\', '"']
    } else if c == '\\' {
        seq!['\\', '\\']
    } else if c == '\u{08}' {
        seq!['\\', 'b']
    } else if c == '\t' {
        seq!['\\', 't']
    } else if c == '\n' {
        seq!['\\', 'n']
    } else if c == '\u{0c}' {
        seq!['\\', 'f']
    } else if c == '\r' {
        seq!['\\', 'r']
    } else if (c as u32) < 0x20 {
        seq!['\\', 'u', '0', '0', hex_digit((c as u32) as int / 16), hex_digit((c as u32) as int % 16)]
    } else {
        seq![c]
    }
}

/// A text escaped for use inside a JSON string literal.
pub open spec fn json_escaped(s: Seq<char>) -> Seq<char>
    decreases s.len(),
{
    if s.len() == 0 {
        Seq::empty()
    } else {
        escape_char(s[0]) + json_escaped(s.skip(1))
    }
}

proof fn lemma_json_escaped_push(s: Seq<char>, c: char)
    ensures
        json_escaped(s.push(c)) == json_escaped(s) + escape_char(c),
    decreases s.len(),
{
    let t = s.push(c);
    if s.len() == 0 {
        assert(t[0] == c);
        assert(t.skip(1) =~= Seq::<char>::empty());
        assert(json_escaped(t.skip(1)) == Seq::<char>::empty());
        assert(json_escaped(t) == escape_char(c) + json_escaped(t.skip(1)));
        assert(json_escaped(s) == Seq::<char>::empty());
        assert(json_escaped(t) =~= json_escaped(s) + escape_char(c));
    } else {
        assert(t[0] == s[0]);
        assert(t.skip(1) =~= s.skip(1).push(c));
        lemma_json_escaped_push(s.skip(1), c);
        assert(json_escaped(t) == escape_char(s[0]) + json_escaped(t.skip(1)));
        assert(json_escaped(s) == escape_char(s[0]) + json_escaped(s.skip(1)));
        assert(json_escaped(t) =~= json_escaped(s) + escape_char(c));
    }
}

/// Appends to `out` one character as it is written inside a JSON string
/// literal.
fn push_escaped(out: &mut String, c: char)
    ensures
        final(out).view() == old(out).view() + escape_char(c),
{
    let code: u32 = c as u32;
    if c == '"' {
        push_char(out, '\\');
        push_char(out, '"');
    } else if c == '\\' {
        push_char(out, '\\');
        push_char(out, '\\');
    } else if c == '\u{08}' {
        push_char(out, '\\');
        push_char(out, 'b');
    } else if c == '\t' {
        push_char(out, '\\');
        push_char(out, 't');
    } else if c == '\n' {
        push_char(out, '\\');
        push_char(out, 'n');
    } else if c == '\u{0c}' {
        push_char(out, '\\');
        push_char(out, 'f');
    } else if c == '\r' {
        push_char(out, '\\');
        push_char(out, 'r');
    } else if code < 0x20 {
        push_char(out, '\\');
        push_char(out, 'u');
        push_char(out, '0');
        push_char(out, '0');
        push_char(out, hex_digit_exec(code / 16));
        push_char(out, hex_digit_exec(code % 16));
        assert(out.view() =~= old(out).view() + escape_char(c));
    } else {
        push_char(out, c);
    }
    assert(final(out).view() =~= old(out).view() + escape_char(c));
}

/// The lower-case hex digit of one value below sixteen.
fn hex_digit_exec(n: u32) -> (c: char)
    requires
        n < 16,
    ensures
        c == hex_digit(n as int),
{
    match n {
        0 => '0',
        1 => '1',
        2 => '2',
        3 => '3',
        4 => '4',
        5 => '5',
        6 => '6',
        7 => '7',
        8 => '8',
        9 => '9',
        10 => 'a',
        11 => 'b',
        12 => 'c',
        13 => 'd',
        14 => 'e',
        _ => 'f',
    }
}

/// Escapes a text for use inside a JSON string literal.
pub fn json_escape(s: &str) -> (r: String)
    ensures
        r.view() == json_escaped(s.view()),
{
    let mut out = String::new();
    let len = s.unicode_len();
    let mut i: usize = 0;
    while i < len
        invariant
            i <= len,
            len == s.view().len(),
            out.view() == json_escaped(s.view().take(i as int)),
        decreases len - i,
    {
        let c = s.get_char(i);
        proof {
            lemma_json_escaped_push(s.view().take(i as int), s.view()[i as int]);
            assert(s.view().take(i as int).push(s.view()[i as int]) =~= s.view().take(
                i as int + 1,
            ));
        }
        push_escaped(&mut out, c);
        i = i + 1;
    }
    proof {
        assert(s.view().take(len as int) =~= s.view());
    }
    out
}

/// One outbound duplex frame: text or binary.
#[derive(Debug, PartialEq, Eq)]
pub enum WireFrame {
    Text(String),
    Binary(Vec<u8>),
}

/// The ghost shape of an outbound duplex frame.
pub enum WireFrameModel {
    Text(Seq<char>),
    Binary(Seq<u8>),
}

impl View for WireFrame {
    type V = WireFrameModel;

    open spec fn view(&self) -> WireFrameModel {
        match self {
            WireFrame::Text(s) => WireFrameModel::Text(s.view()),
            WireFrame::Binary(b) => WireFrameModel::Binary(b.view()),
        }
    }
}

/// The structured error object sent as one text frame: the message inside
/// a JSON string literal under the key `error`.
pub open spec fn error_frame_text(msg: Seq<char>) -> Seq<char> {
    "{\"error\":\"".view() + json_escaped(msg) + "\"}".view()
}

/// The one duplex encoding of each outcome: structured text and binary
/// payloads pass through verbatim as one frame each, an empty result is the
/// empty-object literal, a structural rejection and an upstream failure are
/// structured error objects, and a hand-off arriving inside an open session
/// (structurally unreachable, kept defensively) names an unknown response.
pub open spec fn duplex_encoding(
    o: Result<QueryResponseModel, AppErrorModel>,
) -> WireFrameModel {
    match o {
        Ok(QueryResponseModel::Json(s)) => WireFrameModel::Text(s),
        Ok(QueryResponseModel::Arrow(b)) => WireFrameModel::Binary(b),
        Ok(QueryResponseModel::Empty) => WireFrameModel::Text("{}".view()),
        Ok(QueryResponseModel::Handoff) => WireFrameModel::Text(
            "{\"error\":\"Unknown response Type\"}".view(),
        ),
        Ok(QueryResponseModel::BadRequest) => WireFrameModel::Text(
            "{\"error\":\"Bad request\"}".view(),
        ),
        Err(AppErrorModel::BadRequest) => WireFrameModel::Text(
            "{\"error\":\"Bad request\"}".view(),
        ),
        Err(AppErrorModel::Error(m)) => WireFrameModel::Text(error_frame_text(m)),
    }
}

/// Encodes one outcome as its single outbound duplex frame.
pub fn encode_duplex(o: Result<QueryResponse, AppError>) -> (f: WireFrame)
    ensures
        f.view() == duplex_encoding(outcome_model(o)),
{
    match o {
        Ok(QueryResponse::Json(s)) => WireFrame::Text(s),
        Ok(QueryResponse::Arrow(b)) => WireFrame::Binary(b),
        Ok(QueryResponse::Empty) => WireFrame::Text(String::from_str("{}")),
        Ok(QueryResponse::Handoff) => WireFrame::Text(
            String::from_str("{\"error\":\"Unknown response Type\"}"),
        ),
        Ok(QueryResponse::BadRequest) => WireFrame::Text(
            String::from_str("{\"error\":\"Bad request\"}"),
        ),
        Err(AppError::BadRequest) => WireFrame::Text(
            String::from_str("{\"error\":\"Bad request\"}"),
        ),
        Err(AppError::Error(m)) => {
            let mut out = String::from_str("{\"error\":\"");
            let escaped = json_escape(m.as_str());
            out.append(escaped.as_str());
            out.append("\"}");
            WireFrame::Text(out)
        },
    }
}

/// Law: duplex encoding is deterministic — outcomes with the identical
/// variant and payload yield the identical frame.
pub proof fn lemma_duplex_encoding_deterministic(
    a: Result<QueryResponseModel, AppErrorModel>,
    b: Result<QueryResponseModel, AppErrorModel>,
)
    requires
        a == b,
    ensures
        duplex_encoding(a) == duplex_encoding(b),
{
}

/// The state of one duplex session.
#[derive(Debug, PartialEq, Eq, Clone, Copy)]
pub enum SessionState {
    Open,
    Closed,
}

/// One thing the transport hands the session loop: a frame of each kind,
/// or the channel's failure.
#[derive(Debug, PartialEq, Eq)]
pub enum SessionEvent {
    /// An inbound text frame carrying a request.
    Text(String),
    /// An inbound binary frame: ignored.
    Binary(Vec<u8>),
    /// A control frame other than Close: ignored.
    Control,
    /// A Close frame: the session ends, nothing is sent in response.
    Close,
    /// The channel failed or ended while receiving.
    Gone,
}

/// One scripted turn of a session: the inbound event, what the execution
/// collaborator would answer if the frame's request reaches it, and whether
/// sending a frame back would succeed.
pub struct ScriptedTurn {
    pub event: SessionEvent,
    pub outcome: Result<QueryResponse, AppError>,
    pub send_ok: bool,
}

/// The reply one text frame earns: the rejection frame where the text does
/// not normalize, the encoded engine outcome otherwise.
pub open spec fn frame_reply(
    text: Seq<char>,
    outcome: Result<QueryResponseModel, AppErrorModel>,
) -> WireFrameModel {
    match normalized(text) {
        None => duplex_encoding(Err(AppErrorModel::BadRequest)),
        Some(_) => duplex_encoding(outcome),
    }
}

/// Every frame one session delivers for a script of turns, in order: text
/// frames are answered one frame each, binary and non-Close control frames
/// are ignored, and a Close frame, a receive failure or a send failure ends
/// the session with nothing further delivered.
pub open spec fn session_outputs(turns: Seq<ScriptedTurn>) -> Seq<WireFrameModel>
    decreases turns.len(),
{
    if turns.len() == 0 {
        Seq::empty()
    } else {
        let t = turns[0];
        match t.event {
            SessionEvent::Text(s) => if t.send_ok {
                seq![frame_reply(s.view(), outcome_model(t.outcome))] + session_outputs(
                    turns.skip(1),
                )
            } else {
                Seq::empty()
            },
            SessionEvent::Binary(_) => session_outputs(turns.skip(1)),
            SessionEvent::Control => session_outputs(turns.skip(1)),
            SessionEvent::Close => Seq::empty(),
            SessionEvent::Gone => Seq::empty(),
        }
    }
}

/// The state a session is left in by a script of turns: `Open` only where
/// no turn terminated it.
pub open spec fn session_final_state(turns: Seq<ScriptedTurn>) -> SessionState
    decreases turns.len(),
{
    if turns.len() == 0 {
        SessionState::Open
    } else {
        let t = turns[0];
        match t.event {
            SessionEvent::Text(s) => if t.send_ok {
                session_final_state(turns.skip(1))
            } else {
                SessionState::Closed
            },
            SessionEvent::Binary(_) => session_final_state(turns.skip(1)),
            SessionEvent::Control => session_final_state(turns.skip(1)),
            SessionEvent::Close => SessionState::Closed,
            SessionEvent::Gone => SessionState::Closed,
        }
    }
}

/// The models of delivered frames, in order.
pub open spec fn frames_model(v: Seq<WireFrame>) -> Seq<WireFrameModel> {
    v.map_values(|f: WireFrame| f.view())
}

/// Runs one whole session over a script of turns, exactly as the loop on a
/// live connection runs over what the channel yields: strictly one frame at
/// a time, each handled to completion before the next is read. Returns the
/// delivered frames and the state the session ends in.
pub fn run_session(turns: Vec<ScriptedTurn>) -> (r: (Vec<WireFrame>, SessionState))
    ensures
        frames_model(r.0.view()) == session_outputs(turns.view()),
        r.1 == session_final_state(turns.view()),
{
    let mut turns = turns;
    let mut out: Vec<WireFrame> = Vec::new();
    let ghost all = turns.view();
    let mut open: bool = true;
    while open && turns.len() > 0
        invariant
            open ==> session_outputs(all) == frames_model(out.view()) + session_outputs(
                turns.view(),
            ),
            open ==> session_final_state(all) == session_final_state(turns.view()),
            !open ==> session_outputs(all) == frames_model(out.view()),
            !open ==> session_final_state(all) == SessionState::Closed,
        decreases turns.len(),
    {
        let ghost pre = turns.view();
        let t = turns.remove(0);
        proof {
            assert(pre[0] == t);
            assert(turns.view() =~= pre.skip(1));
        }
        match t.event {
            SessionEvent::Text(text) => {
                let reply = match normalize_text(text.as_str()) {
                    Err(e) => encode_duplex(Err(e)),
                    Ok(_) => encode_duplex(t.outcome),
                };
                if t.send_ok {
                    proof {
                        assert(frames_model(out.view().push(reply)) =~= frames_model(out.view())
                            + seq![reply.view()]);
                        assert(frames_model(out.view()) + (seq![
                            frame_reply(text.view(), outcome_model(t.outcome)),
                        ] + session_outputs(pre.skip(1))) =~= (frames_model(out.view()) + seq![
                            frame_reply(text.view(), outcome_model(t.outcome)),
                        ]) + session_outputs(pre.skip(1)));
                    }
                    out.push(reply);
                } else {
                    open = false;
                }
            },
            SessionEvent::Binary(_) => {},
            SessionEvent::Control => {},
            SessionEvent::Close => {
                open = false;
            },
            SessionEvent::Gone => {
                open = false;
            },
        }
    }
    proof {
        if open {
            assert(session_outputs(turns.view()) == Seq::<WireFrameModel>::empty());
            assert(frames_model(out.view()) + Seq::<WireFrameModel>::empty() =~= frames_model(
                out.view(),
            ));
        }
    }
    (out, if open {
        SessionState::Open
    } else {
        SessionState::Closed
    })
}

/// Law: session resilience. A structurally invalid text frame is answered
/// by exactly one rejection frame and the session stays open: the turns
/// after it are processed exactly as they would be on their own, and in
/// particular a following valid text frame is answered by its own encoded
/// outcome.
pub proof fn lemma_session_resilience(bad: ScriptedTurn, rest: Seq<ScriptedTurn>)
    requires
        bad.event matches SessionEvent::Text(s) && normalized(s.view()) is None,
        bad.send_ok,
    ensures
        session_outputs(seq![bad] + rest) == seq![
            duplex_encoding(Err(AppErrorModel::BadRequest)),
        ] + session_outputs(rest),
        session_final_state(seq![bad] + rest) == session_final_state(rest),
{
    let turns = seq![bad] + rest;
    assert(turns[0] == bad);
    assert(turns.skip(1) =~= rest);
}

/// Law: session termination. Nothing is sent in response to a Close frame,
/// and no turn after it is processed: the delivered frames and the final
/// state are those of the turns before the Close alone, whatever follows.
pub proof fn lemma_session_termination(
    prefix: Seq<ScriptedTurn>,
    close: ScriptedTurn,
    suffix: Seq<ScriptedTurn>,
)
    requires
        close.event is Close,
    ensures
        session_outputs(prefix + seq![close] + suffix) == session_outputs(prefix + seq![close]),
        session_final_state(prefix + seq![close] + suffix) == SessionState::Closed,
        session_final_state(prefix + seq![close]) == SessionState::Closed,
    decreases prefix.len(),
{
    let with_suffix = prefix + seq![close] + suffix;
    let without = prefix + seq![close];
    if prefix.len() == 0 {
        assert(with_suffix[0] == close);
        assert(without[0] == close);
    } else {
        assert(with_suffix[0] == prefix[0]);
        assert(without[0] == prefix[0]);
        assert(with_suffix.skip(1) =~= prefix.skip(1) + seq![close] + suffix);
        assert(without.skip(1) =~= prefix.skip(1) + seq![close]);
        lemma_session_termination(prefix.skip(1), close, suffix);
    }
}

} // verus!

