//! What the line-oriented applications write about a turn.
use vstd::prelude::*;
use vstd::string::*;
use crate::arguments::OutputMode;
use crate::display;
use crate::display::terminal_text;
use crate::number;
use crate::number::decimal;
use crate::text::{characters, same};

verus! {

/// One piece of a tool's result.
#[derive(Debug)]
pub enum ToolContent {
    Text(String),
    /// The identifier of an image.
    Image(String),
}

/// What a durable fact is about, as far as it is written.
#[derive(Debug)]
pub enum FactBody {
    TextDelta(String),
    ToolIntent { name: String, arguments: String },
    ToolResult(Vec<ToolContent>),
    ImageOutput(String),
    TurnTerminal,
    Other,
}

/// Something that happened while a turn ran. Values of other owners come as the JSON that they
/// are written in.
#[derive(Debug)]
pub enum CliEvent {
    Interactions { snapshot: String },
    Notice { kind: String, value: String, pretty: String },
    Message { session_id: String, message_id: String, accepted_control_seq: u64 },
    Turn { session_id: String, message_id: String, turn_id: String, entered_fact_seq: u64 },
    Control { session_id: String, record: String, durable_control_seq: u64 },
    Fact { session_id: String, fact: String, body: FactBody, durable_seq: u64 },
    Outcome {
        session_id: String,
        turn_id: String,
        outcome: String,
        described: String,
        durable_seq: u64,
    },
}

/// The kinds of notices that answer a question, and so belong to the output itself.
pub open spec fn query_result(kind: Seq<char>) -> bool {
    ||| kind == "sessions"@
    ||| kind == "history"@
    ||| kind == "inspection"@
    ||| kind == "output"@
    ||| kind == "approvals"@
    ||| kind == "questions"@
    ||| kind == "commands"@
    ||| kind == "command_result"@
}

pub fn is_query_result(kind: &str) -> (r: bool)
    ensures
        r == query_result(kind@),
{
    same(kind, "sessions") || same(kind, "history") || same(kind, "inspection") || same(
        kind,
        "output",
    ) || same(kind, "approvals") || same(kind, "questions") || same(kind, "commands") || same(
        kind,
        "command_result",
    )
}

/// Whether an event must reach the output even where the turn is cancelled: its end.
pub fn is_terminal_event(event: &CliEvent) -> (r: bool)
    ensures
        r == (*event is Outcome || (*event matches CliEvent::Fact { body, .. }
            && body is TurnTerminal)),
{
    match event {
        CliEvent::Outcome { .. } => true,
        CliEvent::Fact { body, .. } => match body {
            FactBody::TurnTerminal => true,
            _ => false,
        },
        _ => false,
    }
}

/// What was written so far, as far as the next text depends on it.
#[derive(Clone, Copy, Debug, PartialEq, Eq, Structural)]
pub struct CliRenderState {
    pub wrote_text: bool,
    pub text_ends_newline: bool,
}

/// Whether the cursor stands behind text in its line.
pub open spec fn midline(s: CliRenderState) -> bool {
    s.wrote_text && !s.text_ends_newline
}

/// A newline where the cursor stands behind text.
pub open spec fn break_if_midline(s: CliRenderState) -> Seq<char> {
    if midline(s) {
        seq!['\n']
    } else {
        seq![]
    }
}

/// The state behind a piece of text.
pub open spec fn behind(text: Seq<char>) -> CliRenderState {
    CliRenderState {
        wrote_text: true,
        text_ends_newline: text.len() > 0 && text.last() == '\n',
    }
}

/// The line that refers to an image.
pub open spec fn media_line(id: Seq<char>) -> Seq<char> {
    "media:"@ + id + seq!['\n']
}

/// The lines that refer to the images of a tool's result.
pub open spec fn media_lines(s: CliRenderState, content: Seq<ToolContent>) -> (
    Seq<char>,
    CliRenderState,
)
    decreases content.len(),
{
    if content.len() == 0 {
        (seq![], s)
    } else {
        let (before, state) = media_lines(s, content.drop_last());
        match content.last() {
            ToolContent::Image(id) => (
                before + (break_if_midline(state) + media_line(id@)),
                CliRenderState { wrote_text: true, text_ends_newline: true },
            ),
            ToolContent::Text(_) => (before, state),
        }
    }
}

/// What an event adds to the output as text.
pub open spec fn event_text(s: CliRenderState, event: CliEvent) -> (Seq<char>, CliRenderState) {
    match event {
        CliEvent::Notice { kind, pretty, .. } => if query_result(kind@) {
            (
                break_if_midline(s) + display::shown_text(pretty@) + seq!['\n'],
                CliRenderState { wrote_text: true, text_ends_newline: true },
            )
        } else {
            (seq![], s)
        },
        CliEvent::Fact { body: FactBody::TextDelta(text), .. } => (
            display::shown_text(text@),
            behind(text@),
        ),
        CliEvent::Fact { body: FactBody::ToolResult(content), .. } => media_lines(s, content@),
        CliEvent::Fact { body: FactBody::ImageOutput(id), .. } => (
            break_if_midline(s) + media_line(id@),
            CliRenderState { wrote_text: true, text_ends_newline: true },
        ),
        _ => (seq![], s),
    }
}

fn ends_newline(text: &str) -> (r: bool)
    ensures
        r == (text@.len() > 0 && text@.last() == '\n'),
{
    let v = characters(text);
    v.len() > 0 && v[v.len() - 1] == '\n'
}

impl CliRenderState {
    pub fn new() -> (s: CliRenderState)
        ensures
            s == (CliRenderState { wrote_text: false, text_ends_newline: false }),
    {
        CliRenderState { wrote_text: false, text_ends_newline: false }
    }

    /// What to write for a piece of text.
    pub fn write_text_delta(&mut self, text: &str) -> (out: String)
        ensures
            out@ == display::shown_text(text@),
            *final(self) == behind(text@),
    {
        self.wrote_text = true;
        self.text_ends_newline = ends_newline(text);
        terminal_text(text)
    }

    /// What to write for an image.
    pub fn write_media_reference(&mut self, id: &str) -> (out: String)
        ensures
            out@ == break_if_midline(*old(self)) + media_line(id@),
            *final(self) == (CliRenderState { wrote_text: true, text_ends_newline: true }),
    {
        let mut out: String = String::new();
        if self.wrote_text && !self.text_ends_newline {
            out.push('\n');
        }
        proof {
            assert(out@ =~= break_if_midline(*old(self)));
        }
        let ghost start = out@;
        out.append("media:");
        out.append(id);
        out.push('\n');
        proof {
            assert(out@ =~= start + media_line(id@));
        }
        self.wrote_text = true;
        self.text_ends_newline = true;
        out
    }

    /// What to write for an event as text.
    pub fn write_text_event(&mut self, event: &CliEvent) -> (out: String)
        ensures
            (out@, *final(self)) == event_text(*old(self), *event),
    {
        match event {
            CliEvent::Notice { kind, pretty, .. } => {
                if !is_query_result(kind.as_str()) {
                    return String::new();
                }
                let mut out: String = String::new();
                if self.wrote_text && !self.text_ends_newline {
                    out.push('\n');
                }
                proof {
                    assert(out@ =~= break_if_midline(*old(self)));
                }
                out.append(terminal_text(pretty.as_str()).as_str());
                out.push('\n');
                self.wrote_text = true;
                self.text_ends_newline = true;
                proof {
                    assert(out@ =~= event_text(*old(self), *event).0);
                }
                out
            },
            CliEvent::Fact { body, .. } => match body {
                FactBody::TextDelta(text) => self.write_text_delta(text.as_str()),
                FactBody::ToolResult(content) => {
                    let mut out: String = String::new();
                    let mut i: usize = 0;
                    proof {
                        assert(content@.take(0) =~= Seq::<ToolContent>::empty());
                    }
                    while i < content.len()
                        invariant
                            i <= content@.len(),
                            (out@, *self) == media_lines(*old(self), content@.take(i as int)),
                        decreases content@.len() - i,
                    {
                        proof {
                            assert(content@.take(i as int + 1).drop_last() =~= content@.take(
                                i as int,
                            ));
                            assert(content@.take(i as int + 1).last() == content@[i as int]);
                        }
                        match &content[i] {
                            ToolContent::Image(id) => {
                                let line = self.write_media_reference(id.as_str());
                                out.append(line.as_str());
                            },
                            ToolContent::Text(_) => {},
                        }
                        i += 1;
                    }
                    proof {
                        assert(content@.take(content@.len() as int) =~= content@);
                    }
                    out
                },
                FactBody::ImageOutput(id) => self.write_media_reference(id.as_str()),
                _ => String::new(),
            },
            _ => String::new(),
        }
    }

    /// What to write at the end of a turn: a newline where the cursor stands behind text.
    pub fn finish_line(&mut self, output: OutputMode) -> (out: String)
        ensures
            out@ == (if output is Text { break_if_midline(*old(self)) } else { seq![] }),
            *final(self) == (if output is Text && midline(*old(self)) {
                CliRenderState { wrote_text: true, text_ends_newline: true }
            } else {
                *old(self)
            }),
    {
        let mut out: String = String::new();
        if let OutputMode::Text = output {
            if self.wrote_text && !self.text_ends_newline {
                out.push('\n');
                self.text_ends_newline = true;
            }
        }
        proof {
            assert(out@ =~= (if output is Text {
                break_if_midline(*old(self))
            } else {
                seq![]
            }));
        }
        out
    }
}

/// After the end of a turn the cursor stands at the start of a line, and a second end writes
/// nothing more.
pub proof fn law_finish_line(s: CliRenderState)
    ensures
        ({
            let after = if midline(s) {
                CliRenderState { wrote_text: true, text_ends_newline: true }
            } else {
                s
            };
            !midline(after) && break_if_midline(after) == Seq::<char>::empty()
        }),
{
    let after = if midline(s) {
        CliRenderState { wrote_text: true, text_ends_newline: true }
    } else {
        s
    };
    assert(break_if_midline(after) =~= Seq::<char>::empty());
}

/// The texts of a tool's result, one per line.
pub open spec fn result_texts(content: Seq<ToolContent>) -> Seq<Seq<char>>
    decreases content.len(),
{
    if content.len() == 0 {
        seq![]
    } else {
        let before = result_texts(content.drop_last());
        match content.last() {
            ToolContent::Text(text) => before.push(text@),
            ToolContent::Image(_) => before,
        }
    }
}

/// Texts with a separator between each two of them.
pub open spec fn joined(parts: Seq<Seq<char>>, separator: Seq<char>) -> Seq<char>
    decreases parts.len(),
{
    if parts.len() == 0 {
        seq![]
    } else if parts.len() == 1 {
        parts[0]
    } else {
        joined(parts.drop_last(), separator) + separator + parts.last()
    }
}

/// What an event adds to the status stream, before it is made safe to show.
pub open spec fn status_text(event: CliEvent) -> Option<Seq<char>> {
    match event {
        CliEvent::Notice { kind, value, .. } => if query_result(kind@) {
            None
        } else {
            Some(kind@ + ": "@ + value@)
        },
        CliEvent::Control { .. } => None,
        CliEvent::Interactions { snapshot } => Some("interactions: "@ + snapshot@),
        CliEvent::Message { message_id, accepted_control_seq, .. } => Some(
            "accepted: "@ + message_id@ + " (control "@ + number::digits(
                accepted_control_seq as nat,
            ) + ")"@,
        ),
        CliEvent::Turn { turn_id, .. } => Some("turn: "@ + turn_id@),
        CliEvent::Outcome { described, .. } => Some("outcome: "@ + described@),
        CliEvent::Fact { body: FactBody::ToolIntent { name, arguments }, .. } => Some(
            "tool "@ + name@ + ": "@ + arguments@,
        ),
        CliEvent::Fact { body: FactBody::ToolResult(content), .. } => Some(
            joined(result_texts(content@), "\n"@),
        ),
        _ => None,
    }
}

/// The line that an event adds to the status stream.
pub open spec fn status_line(event: CliEvent) -> Option<Seq<char>> {
    match status_text(event) {
        Some(text) => Some(display::shown_text(text).push('\n')),
        None => None,
    }
}

fn join_texts(content: &Vec<ToolContent>) -> (r: String)
    ensures
        r@ == joined(result_texts(content@), "\n"@),
{
    let mut out: String = String::new();
    let mut first: bool = true;
    let mut i: usize = 0;
    proof {
        assert(content@.take(0) =~= Seq::<ToolContent>::empty());
        assert(out@ =~= joined(result_texts(content@.take(0)), "\n"@));
    }
    while i < content.len()
        invariant
            i <= content@.len(),
            out@ == joined(result_texts(content@.take(i as int)), "\n"@),
            first == (result_texts(content@.take(i as int)).len() == 0),
        decreases content@.len() - i,
    {
        let ghost before = result_texts(content@.take(i as int));
        proof {
            assert(content@.take(i as int + 1).drop_last() =~= content@.take(i as int));
        }
        if let ToolContent::Text(text) = &content[i] {
            if !first {
                out.append("\n");
            }
            out.append(text.as_str());
            first = false;
            proof {
                assert(before.push(text@).drop_last() =~= before);
                assert(out@ =~= joined(before.push(text@), "\n"@));
            }
        }
        i += 1;
    }
    proof {
        assert(content@.take(content@.len() as int) =~= content@);
    }
    out
}

/// The line that an event adds to the status stream, if any.
pub fn write_status_event(event: &CliEvent) -> (r: Option<String>)
    ensures
        match r {
            Some(line) => status_line(*event) == Some(line@),
            None => status_line(*event) is None,
        },
{
    let text: String = match event {
        CliEvent::Notice { kind, value, .. } => {
            if is_query_result(kind.as_str()) {
                return None;
            }
            let mut t: String = kind.as_str().to_owned();
            t.append(": ");
            t.append(value.as_str());
            t
        },
        CliEvent::Control { .. } => {
            return None;
        },
        CliEvent::Interactions { snapshot } => {
            let mut t: String = "interactions: ".to_owned();
            t.append(snapshot.as_str());
            t
        },
        CliEvent::Message { message_id, accepted_control_seq, .. } => {
            let mut t: String = "accepted: ".to_owned();
            t.append(message_id.as_str());
            t.append(" (control ");
            t.append(decimal(*accepted_control_seq).as_str());
            t.append(")");
            t
        },
        CliEvent::Turn { turn_id, .. } => {
            let mut t: String = "turn: ".to_owned();
            t.append(turn_id.as_str());
            t
        },
        CliEvent::Outcome { described, .. } => {
            let mut t: String = "outcome: ".to_owned();
            t.append(described.as_str());
            t
        },
        CliEvent::Fact { body, .. } => match body {
            FactBody::ToolIntent { name, arguments } => {
                let mut t: String = "tool ".to_owned();
                t.append(name.as_str());
                t.append(": ");
                t.append(arguments.as_str());
                t
            },
            FactBody::ToolResult(content) => join_texts(content),
            _ => {
                return None;
            },
        },
    };
    let mut line: String = terminal_text(text.as_str());
    line.push('\n');
    Some(line)
}

/// A text as a JSON string.
pub uninterp spec fn json_string(s: Seq<char>) -> Option<Seq<char>>;

/// `serde_json::to_string` on a text: a JSON string of it, or an error. The result depends on
/// the text alone; how each character is escaped is not stated.
#[verifier::external_body]
fn quote(s: &str) -> (r: Option<String>)
    ensures
        match r {
            Some(q) => json_string(s@) == Some(q@),
            None => json_string(s@) is None,
        },
{
    serde_json::to_string(s).ok()
}

/// The start of an envelope: its version, which is 4, and its type.
pub open spec fn envelope(kind: Seq<char>) -> Seq<char> {
    "{\"version\":4,\"type\":\""@ + kind + "\""@
}

/// One more member of an envelope.
pub open spec fn member(name: Seq<char>, value: Seq<char>) -> Seq<char> {
    ",\""@ + name + "\":"@ + value
}

fn open_envelope(kind: &str) -> (out: String)
    ensures
        out@ == envelope(kind@),
{
    let mut out: String = "{\"version\":4,\"type\":\"".to_owned();
    out.append(kind);
    out.append("\"");
    out
}

fn add_member(out: &mut String, name: &str, value: &str)
    ensures
        final(out)@ == old(out)@ + member(name@, value@),
{
    let ghost start = out@;
    out.append(",\"");
    out.append(name);
    out.append("\":");
    out.append(value);
    proof {
        assert(out@ =~= start + member(name@, value@));
    }
}

/// The line of a message that was accepted, from the JSON of its identifiers.
pub fn message_line(session: &str, message: &str, sequence: u64) -> (out: String)
    ensures
        out@ == envelope("message"@) + member("session_id"@, session@) + member(
            "message_id"@,
            message@,
        ) + member("accepted_control_seq"@, number::digits(sequence as nat)) + "}"@,
{
    let mut out: String = open_envelope("message");
    add_member(&mut out, "session_id", session);
    add_member(&mut out, "message_id", message);
    add_member(&mut out, "accepted_control_seq", decimal(sequence).as_str());
    out.append("}");
    out
}

/// The line of a turn that a message entered, from the JSON of its identifiers.
pub fn turn_line(session: &str, message: &str, turn: &str, sequence: u64) -> (out: String)
    ensures
        out@ == envelope("turn"@) + member("session_id"@, session@) + member(
            "message_id"@,
            message@,
        ) + member("turn_id"@, turn@) + member(
            "entered_fact_seq"@,
            number::digits(sequence as nat),
        ) + "}"@,
{
    let mut out: String = open_envelope("turn");
    add_member(&mut out, "session_id", session);
    add_member(&mut out, "message_id", message);
    add_member(&mut out, "turn_id", turn);
    add_member(&mut out, "entered_fact_seq", decimal(sequence).as_str());
    out.append("}");
    out
}

/// The line of a control record, from its JSON and that of its session.
pub fn control_line(session: &str, record: &str, sequence: u64) -> (out: String)
    ensures
        out@ == envelope("control"@) + ",\"data\":{\"session_id\":"@ + session@ + member(
            "record"@,
            record@,
        ) + member("durable_control_seq"@, number::digits(sequence as nat)) + "}}"@,
{
    let mut out: String = open_envelope("control");
    out.append(",\"data\":{\"session_id\":");
    out.append(session);
    add_member(&mut out, "record", record);
    add_member(&mut out, "durable_control_seq", decimal(sequence).as_str());
    out.append("}}");
    out
}

/// The line of a durable fact, from its JSON and that of its session.
pub fn fact_line(session: &str, fact: &str, sequence: u64) -> (out: String)
    ensures
        out@ == envelope("fact"@) + member("session_id"@, session@) + member("fact"@, fact@)
            + member("durable_seq"@, number::digits(sequence as nat)) + "}"@,
{
    let mut out: String = open_envelope("fact");
    add_member(&mut out, "session_id", session);
    add_member(&mut out, "fact", fact);
    add_member(&mut out, "durable_seq", decimal(sequence).as_str());
    out.append("}");
    out
}

/// The line of a turn's outcome, from its JSON and that of its identifiers.
pub fn outcome_line(session: &str, turn: &str, outcome: &str, sequence: u64) -> (out: String)
    ensures
        out@ == envelope("outcome"@) + member("session_id"@, session@) + member("turn_id"@, turn@)
            + member("outcome"@, outcome@) + member(
            "durable_seq"@,
            number::digits(sequence as nat),
        ) + "}"@,
{
    let mut out: String = open_envelope("outcome");
    add_member(&mut out, "session_id", session);
    add_member(&mut out, "turn_id", turn);
    add_member(&mut out, "outcome", outcome);
    add_member(&mut out, "durable_seq", decimal(sequence).as_str());
    out.append("}");
    out
}

/// The line of the live interactions, from their JSON.
pub fn interactions_line(snapshot: &str) -> (out: String)
    ensures
        out@ == envelope("interactions"@) + member("data"@, snapshot@) + "}"@,
{
    let mut out: String = open_envelope("interactions");
    add_member(&mut out, "data", snapshot);
    out.append("}");
    out
}

/// The line of a notice, from the JSON of its kind and its value. Its members are sorted.
pub fn notice_line(kind: &str, value: &str) -> (out: String)
    ensures
        out@ == "{\"data\":"@ + value@ + ",\"type\":"@ + kind@ + ",\"version\":4}"@,
{
    let mut out: String = "{\"data\":".to_owned();
    out.append(value);
    out.append(",\"type\":");
    out.append(kind);
    out.append(",\"version\":4}");
    out
}

/// The JSON line of an event.
pub open spec fn json_line_of(event: CliEvent) -> Option<Seq<char>> {
    match event {
        CliEvent::Interactions { snapshot } => Some(
            envelope("interactions"@) + member("data"@, snapshot@) + "}"@,
        ),
        CliEvent::Notice { kind, value, .. } => match json_string(kind@) {
            Some(k) => Some(
                "{\"data\":"@ + value@ + ",\"type\":"@ + k + ",\"version\":4}"@,
            ),
            None => None,
        },
        CliEvent::Message { session_id, message_id, accepted_control_seq } => match (
            json_string(session_id@),
            json_string(message_id@),
        ) {
            (Some(s), Some(m)) => Some(
                envelope("message"@) + member("session_id"@, s) + member("message_id"@, m) + member(
                    "accepted_control_seq"@,
                    number::digits(accepted_control_seq as nat),
                ) + "}"@,
            ),
            _ => None,
        },
        CliEvent::Turn { session_id, message_id, turn_id, entered_fact_seq } => match (
            json_string(session_id@),
            json_string(message_id@),
            json_string(turn_id@),
        ) {
            (Some(s), Some(m), Some(t)) => Some(
                envelope("turn"@) + member("session_id"@, s) + member("message_id"@, m) + member(
                    "turn_id"@,
                    t,
                ) + member("entered_fact_seq"@, number::digits(entered_fact_seq as nat)) + "}"@,
            ),
            _ => None,
        },
        CliEvent::Control { session_id, record, durable_control_seq } => match json_string(
            session_id@,
        ) {
            Some(s) => Some(
                envelope("control"@) + ",\"data\":{\"session_id\":"@ + s + member(
                    "record"@,
                    record@,
                ) + member("durable_control_seq"@, number::digits(durable_control_seq as nat))
                    + "}}"@,
            ),
            None => None,
        },
        CliEvent::Fact { session_id, fact, durable_seq, .. } => match json_string(session_id@) {
            Some(s) => Some(
                envelope("fact"@) + member("session_id"@, s) + member("fact"@, fact@) + member(
                    "durable_seq"@,
                    number::digits(durable_seq as nat),
                ) + "}"@,
            ),
            None => None,
        },
        CliEvent::Outcome { session_id, turn_id, outcome, durable_seq, .. } => match (
            json_string(session_id@),
            json_string(turn_id@),
        ) {
            (Some(s), Some(t)) => Some(
                envelope("outcome"@) + member("session_id"@, s) + member("turn_id"@, t) + member(
                    "outcome"@,
                    outcome@,
                ) + member("durable_seq"@, number::digits(durable_seq as nat)) + "}"@,
            ),
            _ => None,
        },
    }
}

impl CliEvent {
    /// The JSON line of the event, unless an identifier cannot be written.
    pub fn json_line(&self) -> (r: Option<String>)
        ensures
            match r {
                Some(line) => json_line_of(*self) == Some(line@),
                None => json_line_of(*self) is None,
            },
    {
        match self {
            CliEvent::Interactions { snapshot } => Some(interactions_line(snapshot.as_str())),
            CliEvent::Notice { kind, value, .. } => match quote(kind.as_str()) {
                Some(k) => Some(notice_line(k.as_str(), value.as_str())),
                None => None,
            },
            CliEvent::Message { session_id, message_id, accepted_control_seq } => match (
                quote(session_id.as_str()),
                quote(message_id.as_str()),
            ) {
                (Some(s), Some(m)) => Some(
                    message_line(s.as_str(), m.as_str(), *accepted_control_seq),
                ),
                _ => None,
            },
            CliEvent::Turn { session_id, message_id, turn_id, entered_fact_seq } => match (
                quote(session_id.as_str()),
                quote(message_id.as_str()),
                quote(turn_id.as_str()),
            ) {
                (Some(s), Some(m), Some(t)) => Some(
                    turn_line(s.as_str(), m.as_str(), t.as_str(), *entered_fact_seq),
                ),
                _ => None,
            },
            CliEvent::Control { session_id, record, durable_control_seq } => match quote(
                session_id.as_str(),
            ) {
                Some(s) => Some(control_line(s.as_str(), record.as_str(), *durable_control_seq)),
                None => None,
            },
            CliEvent::Fact { session_id, fact, durable_seq, .. } => match quote(
                session_id.as_str(),
            ) {
                Some(s) => Some(fact_line(s.as_str(), fact.as_str(), *durable_seq)),
                None => None,
            },
            CliEvent::Outcome { session_id, turn_id, outcome, durable_seq, .. } => match (
                quote(session_id.as_str()),
                quote(turn_id.as_str()),
            ) {
                (Some(s), Some(t)) => Some(
                    outcome_line(s.as_str(), t.as_str(), outcome.as_str(), *durable_seq),
                ),
                _ => None,
            },
        }
    }
}

/// What an event adds to both streams.
#[derive(Debug)]
pub struct Written {
    pub stdout: String,
    pub stderr: String,
}

impl CliRenderState {
    /// What to write for an event, or nothing where its JSON cannot be made.
    pub fn write(&mut self, output: OutputMode, event: &CliEvent) -> (r: Option<Written>)
        ensures
            output is Text ==> (r matches Some(w) && (w.stdout@, *final(self)) == event_text(
                *old(self),
                *event,
            ) && w.stderr@ == (match status_line(*event) {
                Some(line) => line,
                None => seq![],
            })),
            output is Jsonl ==> *final(self) == *old(self) && match r {
                Some(w) => json_line_of(*event) is Some && w.stdout@ == json_line_of(
                    *event,
                )->0.push('\n') && w.stderr@ == Seq::<char>::empty(),
                None => json_line_of(*event) is None,
            },
    {
        match output {
            OutputMode::Text => {
                let stderr: String = match write_status_event(event) {
                    Some(line) => line,
                    None => String::new(),
                };
                let stdout: String = self.write_text_event(event);
                Some(Written { stdout, stderr })
            },
            OutputMode::Jsonl => match event.json_line() {
                Some(line) => {
                    let mut stdout: String = line;
                    stdout.push('\n');
                    Some(Written { stdout, stderr: String::new() })
                },
                None => None,
            },
        }
    }
}

/// The line of a message that was accepted, letter for letter.
pub proof fn law_message_line(
    session_id: String,
    message_id: String,
    accepted_control_seq: u64,
    s: Seq<char>,
    m: Seq<char>,
)
    requires
        json_string(session_id@) == Some(s),
        json_string(message_id@) == Some(m),
    ensures
        json_line_of(CliEvent::Message { session_id, message_id, accepted_control_seq }) == Some("{\"version\":4,\"type\":\"message\",\"session_id\":"@
            + s + ",\"message_id\":"@ + m + ",\"accepted_control_seq\":"@
            + number::digits(accepted_control_seq as nat) + "}"@),
{
    reveal_strlit("{\"version\":4,\"type\":\"");
    reveal_strlit("\"");
    reveal_strlit("message");
    reveal_strlit("{\"version\":4,\"type\":\"message\",\"session_id\":");
    reveal_strlit(",\"");
    reveal_strlit("\":");
    reveal_strlit("session_id");
    reveal_strlit("message_id");
    reveal_strlit("accepted_control_seq");
    reveal_strlit(",\"message_id\":");
    reveal_strlit(",\"accepted_control_seq\":");
    assert(envelope("message"@) + (",\""@ + "session_id"@
        + "\":"@) =~= "{\"version\":4,\"type\":\"message\",\"session_id\":"@);
    assert(member("message_id"@, m) =~= ",\"message_id\":"@ + m);
    assert(member("accepted_control_seq"@, number::digits(accepted_control_seq as nat)) =~= ",\"accepted_control_seq\":"@
        + number::digits(accepted_control_seq as nat));
    assert(envelope("message"@) + member("session_id"@, s) =~= envelope("message"@) + (",\""@
        + "session_id"@ + "\":"@) + s);
    assert(envelope("message"@) + member("session_id"@, s) + member("message_id"@, m)
        + member("accepted_control_seq"@, number::digits(accepted_control_seq as nat))
        + "}"@ =~= "{\"version\":4,\"type\":\"message\",\"session_id\":"@ + s + ",\"message_id\":"@
        + m + ",\"accepted_control_seq\":"@ + number::digits(accepted_control_seq as nat) + "}"@);
}

/// The line of a turn that a message entered, letter for letter.
pub proof fn law_turn_line(
    session_id: String,
    message_id: String,
    turn_id: String,
    entered_fact_seq: u64,
    s: Seq<char>,
    m: Seq<char>,
    t: Seq<char>,
)
    requires
        json_string(session_id@) == Some(s),
        json_string(message_id@) == Some(m),
        json_string(turn_id@) == Some(t),
    ensures
        json_line_of(CliEvent::Turn { session_id, message_id, turn_id, entered_fact_seq }) == Some("{\"version\":4,\"type\":\"turn\",\"session_id\":"@
            + s + ",\"message_id\":"@ + m + ",\"turn_id\":"@ + t + ",\"entered_fact_seq\":"@
            + number::digits(entered_fact_seq as nat) + "}"@),
{
    reveal_strlit("{\"version\":4,\"type\":\"");
    reveal_strlit("\"");
    reveal_strlit("turn");
    reveal_strlit("{\"version\":4,\"type\":\"turn\",\"session_id\":");
    reveal_strlit(",\"");
    reveal_strlit("\":");
    reveal_strlit("session_id");
    reveal_strlit("message_id");
    reveal_strlit("turn_id");
    reveal_strlit("entered_fact_seq");
    reveal_strlit(",\"message_id\":");
    reveal_strlit(",\"turn_id\":");
    reveal_strlit(",\"entered_fact_seq\":");
    assert(envelope("turn"@) + (",\""@ + "session_id"@
        + "\":"@) =~= "{\"version\":4,\"type\":\"turn\",\"session_id\":"@);
    assert(member("message_id"@, m) =~= ",\"message_id\":"@ + m);
    assert(member("turn_id"@, t) =~= ",\"turn_id\":"@ + t);
    assert(member("entered_fact_seq"@, number::digits(entered_fact_seq as nat)) =~= ",\"entered_fact_seq\":"@
        + number::digits(entered_fact_seq as nat));
    assert(envelope("turn"@) + member("session_id"@, s) =~= envelope("turn"@) + (",\""@
        + "session_id"@ + "\":"@) + s);
    assert(envelope("turn"@) + member("session_id"@, s) + member("message_id"@, m)
        + member("turn_id"@, t)
        + member("entered_fact_seq"@, number::digits(entered_fact_seq as nat))
        + "}"@ =~= "{\"version\":4,\"type\":\"turn\",\"session_id\":"@ + s + ",\"message_id\":"@ + m
        + ",\"turn_id\":"@ + t + ",\"entered_fact_seq\":"@ + number::digits(entered_fact_seq as nat)
        + "}"@);
}

/// The line of a durable fact, letter for letter, whatever the fact is about.
pub proof fn law_fact_line(
    session_id: String,
    fact: String,
    body: FactBody,
    durable_seq: u64,
    s: Seq<char>,
)
    requires
        json_string(session_id@) == Some(s),
    ensures
        json_line_of(CliEvent::Fact { session_id, fact, body, durable_seq }) == Some("{\"version\":4,\"type\":\"fact\",\"session_id\":"@
            + s + ",\"fact\":"@ + fact@ + ",\"durable_seq\":"@ + number::digits(durable_seq as nat)
            + "}"@),
{
    reveal_strlit("{\"version\":4,\"type\":\"");
    reveal_strlit("\"");
    reveal_strlit("fact");
    reveal_strlit("{\"version\":4,\"type\":\"fact\",\"session_id\":");
    reveal_strlit(",\"");
    reveal_strlit("\":");
    reveal_strlit("session_id");
    reveal_strlit("fact");
    reveal_strlit("durable_seq");
    reveal_strlit(",\"fact\":");
    reveal_strlit(",\"durable_seq\":");
    assert(envelope("fact"@) + (",\""@ + "session_id"@
        + "\":"@) =~= "{\"version\":4,\"type\":\"fact\",\"session_id\":"@);
    assert(member("fact"@, fact@) =~= ",\"fact\":"@ + fact@);
    assert(member("durable_seq"@, number::digits(durable_seq as nat)) =~= ",\"durable_seq\":"@
        + number::digits(durable_seq as nat));
    assert(envelope("fact"@) + member("session_id"@, s) =~= envelope("fact"@) + (",\""@
        + "session_id"@ + "\":"@) + s);
    assert(envelope("fact"@) + member("session_id"@, s) + member("fact"@, fact@)
        + member("durable_seq"@, number::digits(durable_seq as nat))
        + "}"@ =~= "{\"version\":4,\"type\":\"fact\",\"session_id\":"@ + s + ",\"fact\":"@ + fact@
        + ",\"durable_seq\":"@ + number::digits(durable_seq as nat) + "}"@);
}

/// The line of a turn's outcome, letter for letter.
pub proof fn law_outcome_line(
    session_id: String,
    turn_id: String,
    outcome: String,
    described: String,
    durable_seq: u64,
    s: Seq<char>,
    t: Seq<char>,
)
    requires
        json_string(session_id@) == Some(s),
        json_string(turn_id@) == Some(t),
    ensures
        json_line_of(CliEvent::Outcome { session_id, turn_id, outcome, described, durable_seq }) == Some("{\"version\":4,\"type\":\"outcome\",\"session_id\":"@
            + s + ",\"turn_id\":"@ + t + ",\"outcome\":"@ + outcome@ + ",\"durable_seq\":"@
            + number::digits(durable_seq as nat) + "}"@),
{
    reveal_strlit("{\"version\":4,\"type\":\"");
    reveal_strlit("\"");
    reveal_strlit("outcome");
    reveal_strlit("{\"version\":4,\"type\":\"outcome\",\"session_id\":");
    reveal_strlit(",\"");
    reveal_strlit("\":");
    reveal_strlit("session_id");
    reveal_strlit("turn_id");
    reveal_strlit("outcome");
    reveal_strlit("durable_seq");
    reveal_strlit(",\"turn_id\":");
    reveal_strlit(",\"outcome\":");
    reveal_strlit(",\"durable_seq\":");
    assert(envelope("outcome"@) + (",\""@ + "session_id"@
        + "\":"@) =~= "{\"version\":4,\"type\":\"outcome\",\"session_id\":"@);
    assert(member("turn_id"@, t) =~= ",\"turn_id\":"@ + t);
    assert(member("outcome"@, outcome@) =~= ",\"outcome\":"@ + outcome@);
    assert(member("durable_seq"@, number::digits(durable_seq as nat)) =~= ",\"durable_seq\":"@
        + number::digits(durable_seq as nat));
    assert(envelope("outcome"@) + member("session_id"@, s) =~= envelope("outcome"@) + (",\""@
        + "session_id"@ + "\":"@) + s);
    assert(envelope("outcome"@) + member("session_id"@, s) + member("turn_id"@, t)
        + member("outcome"@, outcome@) + member("durable_seq"@, number::digits(durable_seq as nat))
        + "}"@ =~= "{\"version\":4,\"type\":\"outcome\",\"session_id\":"@ + s + ",\"turn_id\":"@ + t
        + ",\"outcome\":"@ + outcome@ + ",\"durable_seq\":"@ + number::digits(durable_seq as nat)
        + "}"@);
}

/// The line of a control record, letter for letter: its members stand inside the data.
pub proof fn law_control_line(
    session_id: String,
    record: String,
    durable_control_seq: u64,
    s: Seq<char>,
)
    requires
        json_string(session_id@) == Some(s),
    ensures
        json_line_of(CliEvent::Control { session_id, record, durable_control_seq }) == Some(
            "{\"version\":4,\"type\":\"control\",\"data\":{\"session_id\":"@ + s + ",\"record\":"@
                + record@ + ",\"durable_control_seq\":"@ + number::digits(
                durable_control_seq as nat,
            ) + "}}"@,
        ),
{
    let n = number::digits(durable_control_seq as nat);
    reveal_strlit("{\"version\":4,\"type\":\"");
    reveal_strlit("\"");
    reveal_strlit("control");
    reveal_strlit(",\"data\":{\"session_id\":");
    reveal_strlit("{\"version\":4,\"type\":\"control\",\"data\":{\"session_id\":");
    reveal_strlit(",\"");
    reveal_strlit("\":");
    reveal_strlit("record");
    reveal_strlit("durable_control_seq");
    reveal_strlit(",\"record\":");
    reveal_strlit(",\"durable_control_seq\":");
    assert(envelope("control"@) + ",\"data\":{\"session_id\":"@
        =~= "{\"version\":4,\"type\":\"control\",\"data\":{\"session_id\":"@);
    assert(member("record"@, record@) =~= ",\"record\":"@ + record@);
    assert(member("durable_control_seq"@, n) =~= ",\"durable_control_seq\":"@ + n);
    assert(envelope("control"@) + ",\"data\":{\"session_id\":"@ + s + member("record"@, record@)
        + member("durable_control_seq"@, n) + "}}"@
        =~= "{\"version\":4,\"type\":\"control\",\"data\":{\"session_id\":"@ + s + ",\"record\":"@
        + record@ + ",\"durable_control_seq\":"@ + n + "}}"@);
}

/// The lines of the live interactions and of a notice, letter for letter.
pub proof fn law_other_lines(
    snapshot: String,
    kind: String,
    value: String,
    pretty: String,
    k: Seq<char>,
)
    requires
        json_string(kind@) == Some(k),
    ensures
        json_line_of(CliEvent::Interactions { snapshot }) == Some(
            "{\"version\":4,\"type\":\"interactions\",\"data\":"@ + snapshot@ + "}"@,
        ),
        json_line_of(CliEvent::Notice { kind, value, pretty }) == Some(
            "{\"data\":"@ + value@ + ",\"type\":"@ + k + ",\"version\":4}"@,
        ),
{
    reveal_strlit("{\"version\":4,\"type\":\"");
    reveal_strlit("\"");
    reveal_strlit("interactions");
    reveal_strlit("{\"version\":4,\"type\":\"interactions\",\"data\":");
    reveal_strlit(",\"");
    reveal_strlit("\":");
    reveal_strlit("data");
    assert(envelope("interactions"@) + (",\""@ + "data"@ + "\":"@)
        =~= "{\"version\":4,\"type\":\"interactions\",\"data\":"@);
    assert(envelope("interactions"@) + member("data"@, snapshot@) =~= envelope("interactions"@) + (
    ",\""@ + "data"@ + "\":"@) + snapshot@);
}

/// A notice that answers a question goes to the output and never to the status stream; every other
/// goes to the status stream alone, with its kind in front.
pub proof fn law_notices(s: CliRenderState, kind: String, value: String, pretty: String)
    ensures
        ({
            let event = CliEvent::Notice { kind, value, pretty };
            let answers = kind@ == "sessions"@ || kind@ == "history"@ || kind@ == "inspection"@
                || kind@ == "output"@ || kind@ == "approvals"@ || kind@ == "questions"@ || kind@
                == "commands"@ || kind@ == "command_result"@;
            &&& answers ==> status_line(event) is None
            &&& answers ==> event_text(s, event).0 == (if s.wrote_text && !s.text_ends_newline {
                seq!['\n']
            } else {
                seq![]
            }) + display::shown_text(pretty@) + seq!['\n']
            &&& !answers ==> event_text(s, event) == (Seq::<char>::empty(), s)
            &&& !answers ==> status_line(event) == Some(
                display::shown_text(kind@ + ": "@ + value@) + seq!['\n'],
            )
        }),
{
}

/// What the status stream says of the other events: each under its own word, with its own
/// identifier; a control record and a piece of text say nothing there.
pub proof fn law_status(
    session: String,
    message: String,
    turn: String,
    outcome: String,
    described: String,
    record: String,
    sequence: u64,
)
    ensures
        status_text(
            CliEvent::Message {
                session_id: session,
                message_id: message,
                accepted_control_seq: sequence,
            },
        ) == Some("accepted: "@ + message@ + " (control "@ + number::digits(sequence as nat)
            + ")"@),
        status_text(
            CliEvent::Turn {
                session_id: session,
                message_id: message,
                turn_id: turn,
                entered_fact_seq: sequence,
            },
        ) == Some("turn: "@ + turn@),
        status_text(
            CliEvent::Outcome {
                session_id: session,
                turn_id: turn,
                outcome,
                described,
                durable_seq: sequence,
            },
        ) == Some("outcome: "@ + described@),
        status_text(
            CliEvent::Control { session_id: session, record, durable_control_seq: sequence },
        ) is None,
        forall|fact: String, s: String| #[trigger]
            status_text(
                CliEvent::Fact {
                    session_id: session,
                    fact,
                    body: FactBody::TextDelta(s),
                    durable_seq: sequence,
                },
            ) is None,
        forall|fact: String, name: String, arguments: String| #[trigger]
            status_text(
                CliEvent::Fact {
                    session_id: session,
                    fact,
                    body: FactBody::ToolIntent { name, arguments },
                    durable_seq: sequence,
                },
            ) == Some("tool "@ + name@ + ": "@ + arguments@),
{
}

/// A piece of text reaches the output as it is shown, and what follows knows whether it ended its
/// line; an image has a line of its own, which begins behind whatever stood there.
pub proof fn law_text_and_images(
    s: CliRenderState,
    session: String,
    fact: String,
    sequence: u64,
    piece: String,
    id: String,
)
    ensures
        ({
            let text = CliEvent::Fact {
                session_id: session,
                fact,
                body: FactBody::TextDelta(piece),
                durable_seq: sequence,
            };
            let image = CliEvent::Fact {
                session_id: session,
                fact,
                body: FactBody::ImageOutput(id),
                durable_seq: sequence,
            };
            let t = event_text(s, text).1;
            &&& event_text(s, text).0 == display::shown_text(piece@)
            &&& piece@.len() > 0 && piece@.last() == '\n' ==> event_text(t, image).0 == "media:"@
                + id@ + seq!['\n']
            &&& piece@.len() > 0 && piece@.last() != '\n' ==> event_text(t, image).0 == seq!['\n']
                + ("media:"@ + id@ + seq!['\n'])
            &&& event_text(event_text(s, image).1, image).0 == "media:"@ + id@ + seq!['\n']
        }),
{
    let none = Seq::<char>::empty();
    assert(none + media_line(id@) =~= media_line(id@));
}

/// The images of a tool's result are listed one line each, in order; its texts are left out there
/// and are what the status stream says of it.
pub proof fn law_result_split(
    s: CliRenderState,
    front: Seq<ToolContent>,
    text: String,
    id: String,
)
    ensures
        media_lines(s, front.push(ToolContent::Text(text))) == media_lines(s, front),
        result_texts(front.push(ToolContent::Text(text))) == result_texts(front).push(text@),
        result_texts(front.push(ToolContent::Image(id))) == result_texts(front),
        ({
            let (before, state) = media_lines(s, front);
            media_lines(s, front.push(ToolContent::Image(id))).0 == before + ((if state.wrote_text
                && !state.text_ends_newline {
                seq!['\n']
            } else {
                seq![]
            }) + ("media:"@ + id@ + seq!['\n']))
        }),
{
    assert(front.push(ToolContent::Text(text)).drop_last() =~= front);
    assert(front.push(ToolContent::Image(id)).drop_last() =~= front);
}

} // verus!
