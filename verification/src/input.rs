//! Bounded framing of terminal input bytes, before a decoder sees them.
use termina::event::KeyCode::{
    Backspace, Char, Delete, Down, End, Enter, Escape, Function, Home, Left, PageDown, PageUp,
    Right, Tab, Up,
};
use termina::event::{KeyEventKind, MouseButton, MouseEventKind};
use vstd::prelude::*;
use vstd::string::*;
use vstd::utf8::*;
use crate::editor::MAX_TEXT;
use crate::keys::{KeyCode, KeyEvent, MouseEvent, MouseKind};

verus! {

/// Bytes of one escape sequence or character at most.
pub const MAX_FRAME: usize = 4096;

/// What the terminal reported.
#[derive(Debug)]
pub enum Event {
    Key(KeyEvent),
    Mouse(MouseEvent),
    Paste(String),
    /// A report that no front end acts on.
    Other,
}

/// Something that came in from the terminal.
#[derive(Debug)]
pub enum Input {
    Terminal(Event),
    /// Input that was thrown away, and why.
    Rejected(&'static str),
    Closed,
}

/// What an [`Input`] says.
#[verifier::ext_equal]
pub enum InputView {
    Key(KeyEvent),
    Mouse(MouseEvent),
    Paste(Seq<char>),
    Other,
    Rejected(Seq<char>),
    Closed,
}

impl View for Input {
    type V = InputView;

    open spec fn view(&self) -> InputView {
        match *self {
            Input::Terminal(Event::Key(key)) => InputView::Key(key),
            Input::Terminal(Event::Mouse(mouse)) => InputView::Mouse(mouse),
            Input::Terminal(Event::Paste(text)) => InputView::Paste(text@),
            Input::Terminal(Event::Other) => InputView::Other,
            Input::Rejected(why) => InputView::Rejected(why@),
            Input::Closed => InputView::Closed,
        }
    }
}

/// What an optional input says.
pub open spec fn said(r: Option<Input>) -> Option<InputView> {
    match r {
        Some(input) => Some(input@),
        None => None,
    }
}

/// A report other than a key.
#[derive(Clone, Copy, Debug, PartialEq, Eq, Structural)]
pub enum Report {
    Mouse(MouseEvent),
    Other,
}

/// The key that a frame stands for, with its modifier bits and whether it was let go.
pub uninterp spec fn key_frame(frame: Seq<u8>) -> Option<(KeyCode, u8, bool)>;

/// The report other than a key that a frame stands for.
pub uninterp spec fn report_frame(frame: Seq<u8>) -> Option<Report>;

/// `termina::Parser::parse` on a whole frame, and the key event that `Parser::pop` then gives,
/// if it gives one: its code, the bits of its modifiers, and whether its kind is a release. The
/// result depends on the frame alone. Which frame stands for which key is not stated.
#[verifier::external_body]
fn decode_key(frame: &[u8]) -> (r: Option<(KeyCode, u8, bool)>)
    ensures
        r == key_frame(frame@),
{
    let mut parser = termina::Parser::default();
    parser.parse(frame, false);
    let Some(termina::Event::Key(key)) = parser.pop() else { return None };
    let code = match key.code {
        Char(c) => KeyCode::Char(c), Function(n) => KeyCode::Function(n),
        Enter => KeyCode::Enter, Backspace => KeyCode::Backspace,
        Tab => KeyCode::Tab, Escape => KeyCode::Escape,
        Left => KeyCode::Left, Right => KeyCode::Right,
        Up => KeyCode::Up, Down => KeyCode::Down,
        Home => KeyCode::Home, End => KeyCode::End,
        PageUp => KeyCode::PageUp, PageDown => KeyCode::PageDown,
        Delete => KeyCode::Delete, _ => KeyCode::Other,
    };
    Some((code, key.modifiers.bits(), key.kind == KeyEventKind::Release))
}

/// `termina::Parser::parse` on a whole frame, and the event other than a key that `Parser::pop`
/// then gives, if it gives one. The result depends on the frame alone. Which frame stands for
/// which report is not stated.
#[verifier::external_body]
fn decode_report(frame: &[u8]) -> (r: Option<Report>)
    ensures
        r == report_frame(frame@),
{
    let mut parser = termina::Parser::default();
    parser.parse(frame, false);
    let event = parser.pop()?;
    if let termina::Event::Key(_) = event { return None; }
    let termina::Event::Mouse(mouse) = event else { return Some(Report::Other) };
    let kind = match mouse.kind {
        MouseEventKind::Down(MouseButton::Left) => MouseKind::LeftDown,
        MouseEventKind::Up(MouseButton::Left) => MouseKind::LeftUp,
        MouseEventKind::Drag(MouseButton::Left) => MouseKind::LeftDrag,
        MouseEventKind::ScrollUp => MouseKind::ScrollUp,
        MouseEventKind::ScrollDown => MouseKind::ScrollDown,
        _ => MouseKind::Other,
    };
    Some(Report::Mouse(MouseEvent { kind, column: mouse.column, row: mouse.row }))
}

/// `String::from_utf8` gives the text that valid UTF-8 encodes, and an error for other bytes.
#[verifier::external_body]
pub(crate) fn decode_text(bytes: Vec<u8>) -> (r: Option<String>)
    ensures
        r is Some <==> valid_utf8(bytes@),
        r matches Some(s) ==> encode_utf8(s@) == bytes@,
{
    String::from_utf8(bytes).ok()
}

/// Whether a modifier bit is set.
pub open spec fn held(bits: u8, bit: u8) -> bool {
    (bits / bit) % 2 == 1
}

/// A decoded key with its shift, alt and control bits told apart.
pub open spec fn key_of(decoded: (KeyCode, u8, bool)) -> KeyEvent {
    KeyEvent {
        code: decoded.0,
        shift: held(decoded.1, 1),
        alt: held(decoded.1, 2),
        control: held(decoded.1, 4),
        release: decoded.2,
    }
}

/// What a complete frame stands for.
pub open spec fn decoded(frame: Seq<u8>) -> Option<InputView> {
    match key_frame(frame) {
        Some(key) => Some(InputView::Key(key_of(key))),
        None => match report_frame(frame) {
            Some(Report::Mouse(mouse)) => Some(InputView::Mouse(mouse)),
            Some(Report::Other) => Some(InputView::Other),
            None => None,
        },
    }
}

/// The event that a decoded key stands for.
pub fn key_event(decoded: (KeyCode, u8, bool)) -> (key: KeyEvent)
    ensures
        key == key_of(decoded),
{
    let (code, bits, release) = decoded;
    KeyEvent {
        code,
        shift: bits % 2 == 1,
        alt: (bits / 2) % 2 == 1,
        control: (bits / 4) % 2 == 1,
        release,
    }
}

fn decode(frame: &[u8]) -> (r: Option<Input>)
    ensures
        said(r) == decoded(frame@),
{
    match decode_key(frame) {
        Some(key) => Some(Input::Terminal(Event::Key(key_event(key)))),
        None => match decode_report(frame) {
            Some(Report::Mouse(mouse)) => Some(Input::Terminal(Event::Mouse(mouse))),
            Some(Report::Other) => Some(Input::Terminal(Event::Other)),
            None => None,
        },
    }
}

/// How far a character has come in.
#[derive(Clone, Copy, Debug, PartialEq, Eq, Structural)]
pub enum Progress {
    Complete,
    Incomplete,
    Invalid,
}

/// Whether a byte may follow the first byte of a character of several bytes.
pub open spec fn second_byte(first: u8, b: u8) -> bool {
    &&& 0x80 <= b <= 0xbf
    &&& first == 0xe0 ==> 0xa0 <= b
    &&& first == 0xed ==> b <= 0x9f
    &&& first == 0xf0 ==> 0x90 <= b
    &&& first == 0xf4 ==> b <= 0x8f
}

/// Whether bytes begin the encoding of a character but do not complete it.
pub open spec fn opening(b: Seq<u8>) -> bool {
    ||| b.len() == 1 && 0xc2 <= b[0] <= 0xf4
    ||| b.len() == 2 && 0xe0 <= b[0] <= 0xf4 && second_byte(b[0], b[1])
    ||| b.len() == 3 && 0xf0 <= b[0] <= 0xf4 && second_byte(b[0], b[1]) && 0x80 <= b[2] <= 0xbf
}

/// How far the character that bytes belong to has come in.
pub open spec fn progress(b: Seq<u8>) -> Progress {
    if valid_utf8(b) {
        Progress::Complete
    } else if opening(b) {
        Progress::Incomplete
    } else {
        Progress::Invalid
    }
}

/// Whether bytes are the encoding of one character.
spec fn whole(b: Seq<u8>) -> bool {
    ||| b.len() == 1 && b[0] <= 0x7f
    ||| b.len() == 2 && 0xc2 <= b[0] <= 0xdf && 0x80 <= b[1] <= 0xbf
    ||| b.len() == 3 && 0xe0 <= b[0] <= 0xef && second_byte(b[0], b[1]) && 0x80 <= b[2] <= 0xbf
    ||| b.len() == 4 && 0xf0 <= b[0] <= 0xf4 && second_byte(b[0], b[1]) && 0x80 <= b[2] <= 0xbf
        && 0x80 <= b[3] <= 0xbf
}

proof fn lemma_two(a: u8, b: u8)
    requires
        0xc0 <= a <= 0xdf,
        0x80 <= b <= 0xbf,
    ensures
        codepoint_width_2(a, b) >= 0x80 <==> a >= 0xc2,
        codepoint_width_2(a, b) < 0x800,
{
    assert((((a & 0x1f) as u32) << 6) | ((b & 0x3f) as u32) >= 0x80 <==> a >= 0xc2) by (bit_vector)
        requires
            0xc0 <= a <= 0xdf,
            0x80 <= b <= 0xbf,
    ;
    assert((((a & 0x1f) as u32) << 6) | ((b & 0x3f) as u32) < 0x800) by (bit_vector);
}

proof fn lemma_three(a: u8, b: u8, c: u8)
    requires
        0xe0 <= a <= 0xef,
        0x80 <= b <= 0xbf,
        0x80 <= c <= 0xbf,
    ensures
        codepoint_width_3(a, b, c) >= 0x800 <==> !(a == 0xe0 && b < 0xa0),
        (0xd800 <= codepoint_width_3(a, b, c) <= 0xdfff) <==> (a == 0xed && b >= 0xa0),
{
    assert((((a & 0x0f) as u32) << 12) | (((b & 0x3f) as u32) << 6) | ((c & 0x3f) as u32) >= 0x800
        <==> !(a == 0xe0 && b < 0xa0)) by (bit_vector)
        requires
            0xe0 <= a <= 0xef,
            0x80 <= b <= 0xbf,
            0x80 <= c <= 0xbf,
    ;
    assert((0xd800 <= (((a & 0x0f) as u32) << 12) | (((b & 0x3f) as u32) << 6) | ((c
        & 0x3f) as u32) && (((a & 0x0f) as u32) << 12) | (((b & 0x3f) as u32) << 6) | ((c
        & 0x3f) as u32) <= 0xdfff) <==> (a == 0xed && b >= 0xa0)) by (bit_vector)
        requires
            0xe0 <= a <= 0xef,
            0x80 <= b <= 0xbf,
            0x80 <= c <= 0xbf,
    ;
}

proof fn lemma_four(a: u8, b: u8, c: u8, d: u8)
    requires
        0xf0 <= a <= 0xf7,
        0x80 <= b <= 0xbf,
        0x80 <= c <= 0xbf,
        0x80 <= d <= 0xbf,
    ensures
        (0x10000 <= codepoint_width_4(a, b, c, d) <= 0x10ffff) <==> a <= 0xf4 && !(a == 0xf0 && b
            < 0x90) && !(a == 0xf4 && b > 0x8f),
{
    assert((0x10000 <= (((a & 0x07) as u32) << 18) | (((b & 0x3f) as u32) << 12) | (((c
        & 0x3f) as u32) << 6) | ((d & 0x3f) as u32) && (((a & 0x07) as u32) << 18) | (((b
        & 0x3f) as u32) << 12) | (((c & 0x3f) as u32) << 6) | ((d & 0x3f) as u32) <= 0x10ffff)
        <==> (a <= 0xf4 && !(a == 0xf0 && b < 0x90) && !(a == 0xf4 && b > 0x8f))) by (bit_vector)
        requires
            0xf0 <= a <= 0xf7,
            0x80 <= b <= 0xbf,
            0x80 <= c <= 0xbf,
            0x80 <= d <= 0xbf,
    ;
}

proof fn lemma_one(a: u8)
    requires
        a <= 0x7f,
    ensures
        codepoint_width_1(a) == a,
{
    assert((a & 0x7f) as u32 == a as u32) by (bit_vector)
        requires
            a <= 0x7f,
    ;
}

/// Bytes that continue an opening are valid exactly where they complete one character.
proof fn lemma_whole(b: Seq<u8>)
    requires
        b.len() >= 1,
        b.len() == 1 || opening(b.drop_last()),
    ensures
        valid_utf8(b) <==> whole(b),
{
    let p = b.drop_last();
    assert(b.len() > 1 ==> p[0] == b[0]);
    assert(b.len() > 2 ==> p[1] == b[1]);
    assert(b.len() > 3 ==> p[2] == b[2]);
    if b[0] <= 0x7f {
        lemma_one(b[0]);
    } else if 0xc0 <= b[0] <= 0xdf && b.len() >= 2 && 0x80 <= b[1] <= 0xbf {
        lemma_two(b[0], b[1]);
    } else if 0xe0 <= b[0] <= 0xef && b.len() >= 3 && 0x80 <= b[1] <= 0xbf && 0x80 <= b[2] <= 0xbf {
        lemma_three(b[0], b[1], b[2]);
    } else if 0xf0 <= b[0] <= 0xf7 && b.len() >= 4 && 0x80 <= b[1] <= 0xbf && 0x80 <= b[2] <= 0xbf
        && 0x80 <= b[3] <= 0xbf {
        lemma_four(b[0], b[1], b[2], b[3]);
    }
    if whole(b) {
        assert(pop_first_scalar(b) =~= Seq::<u8>::empty());
        assert(valid_utf8(Seq::<u8>::empty()));
    }
}

fn is_second_byte(first: u8, b: u8) -> (r: bool)
    ensures
        r == second_byte(first, b),
{
    0x80 <= b && b <= 0xbf && (first != 0xe0 || 0xa0 <= b) && (first != 0xed || b <= 0x9f) && (first
        != 0xf0 || 0x90 <= b) && (first != 0xf4 || b <= 0x8f)
}

/// Judges bytes that continue a character from the index `from` on.
fn judge(frame: &[u8], from: usize) -> (r: Progress)
    requires
        from < frame@.len(),
        frame@.len() - from == 1 || opening(frame@.skip(from as int).drop_last()),
    ensures
        r == progress(frame@.skip(from as int)),
{
    let n: usize = frame.len() - from;
    let ghost b = frame@.skip(from as int);
    proof {
        lemma_whole(b);
    }
    let first: u8 = frame[from];
    if n == 1 {
        if first <= 0x7f {
            Progress::Complete
        } else if 0xc2 <= first && first <= 0xf4 {
            Progress::Incomplete
        } else {
            Progress::Invalid
        }
    } else {
        let second: u8 = frame[from + 1];
        if n == 2 {
            if first <= 0xdf {
                if 0x80 <= second && second <= 0xbf {
                    Progress::Complete
                } else {
                    Progress::Invalid
                }
            } else if is_second_byte(first, second) {
                Progress::Incomplete
            } else {
                Progress::Invalid
            }
        } else {
            let third: u8 = frame[from + 2];
            if !(0x80 <= third && third <= 0xbf) {
                Progress::Invalid
            } else if n == 3 {
                if first <= 0xef {
                    Progress::Complete
                } else {
                    Progress::Incomplete
                }
            } else {
                let fourth: u8 = frame[from + 3];
                if 0x80 <= fourth && fourth <= 0xbf {
                    Progress::Complete
                } else {
                    Progress::Invalid
                }
            }
        }
    }
}

/// The bytes that open a bracketed paste.
pub open spec fn paste_start() -> Seq<u8> {
    seq![27u8, 91u8, 50u8, 48u8, 48u8, 126u8]
}

/// The bytes that close a bracketed paste.
pub open spec fn paste_end() -> Seq<u8> {
    seq![27u8, 91u8, 50u8, 48u8, 49u8, 126u8]
}

fn end_byte(i: usize) -> (b: u8)
    requires
        i < 6,
    ensures
        b == paste_end()[i as int],
{
    if i == 0 {
        27
    } else if i == 1 {
        91
    } else if i == 2 {
        50
    } else if i == 3 {
        48
    } else if i == 4 {
        49
    } else {
        126
    }
}

/// A frame that opened a control string: OSC, DCS, APC or PM.
pub open spec fn opens_string(f: Seq<u8>) -> bool {
    f.len() >= 2 && f[0] == 27 && (f[1] == 0x5d || f[1] == 0x50 || f[1] == 0x5f || f[1] == 0x5e)
}

/// A frame that opened a control sequence: CSI or SS3.
pub open spec fn opens_sequence(f: Seq<u8>) -> bool {
    f.len() >= 2 && f[0] == 27 && (f[1] == 0x5b || f[1] == 0x4f)
}

/// A byte that ends a control sequence.
pub open spec fn ends_sequence(b: u8) -> bool {
    0x40 <= b <= 0x7e
}

/// The bytes of a frame that encode a character: all, or those behind an escape.
pub open spec fn spelled(f: Seq<u8>) -> Seq<u8> {
    if f[0] == 27 {
        f.skip(1)
    } else {
        f
    }
}

/// How far a frame has come in.
pub open spec fn verdict(f: Seq<u8>) -> Progress {
    if opens_string(f) {
        if f.last() == 7 || (f[f.len() - 2] == 27 && f.last() == 0x5c) {
            Progress::Complete
        } else {
            Progress::Incomplete
        }
    } else if opens_sequence(f) {
        if f.len() > 2 && ends_sequence(f.last()) {
            Progress::Complete
        } else {
            Progress::Incomplete
        }
    } else if f.len() == 1 && f[0] == 27 {
        Progress::Incomplete
    } else {
        progress(spelled(f))
    }
}

/// What a framer remembers between two bytes.
#[verifier::ext_equal]
pub struct FramerView {
    pub frame: Seq<u8>,
    /// What was pasted so far, while a paste comes in.
    pub paste: Option<Seq<u8>>,
    /// The number of bytes of the closing mark that came in last.
    pub matched: int,
    /// The paste was too long and is thrown away.
    pub overflow: bool,
    /// A frame that was too long is thrown away: a control string, or else a control sequence.
    pub discard: Option<bool>,
    pub discard_escape: bool,
}

impl FramerView {
    /// A framer that waits for the first byte of a frame.
    pub open spec fn idle(overflow: bool) -> FramerView {
        FramerView {
            frame: seq![],
            paste: None,
            matched: 0,
            overflow,
            discard: None,
            discard_escape: false,
        }
    }

    /// A framer right behind the bytes that open a paste.
    pub open spec fn pasting() -> FramerView {
        FramerView { paste: Some(seq![]), ..FramerView::idle(false) }
    }

    /// A frame that is not complete yet, or none.
    pub open spec fn framing(self) -> bool {
        let f = self.frame;
        ||| f.len() == 0
        ||| f.len() == 1 && f[0] == 27
        ||| opens_string(f)
        ||| opens_sequence(f)
        ||| f[0] == 27 && opening(f.skip(1))
        ||| f[0] != 27 && opening(f)
    }

    /// Storage is bounded, and at most one of a frame, a paste and a discard is under way.
    pub open spec fn valid(self) -> bool {
        &&& self.frame.len() <= MAX_FRAME
        &&& self.framing()
        &&& 0 <= self.matched < 6
        &&& self.paste is Some ==> self.frame.len() == 0 && self.discard is None
            && self.paste->0.len() <= MAX_TEXT && (self.overflow ==> self.paste->0.len() == 0)
        &&& self.paste is None ==> self.matched == 0
        &&& self.discard is Some ==> self.frame.len() == 0
        &&& self.discard is None ==> !self.discard_escape
    }

    /// The framer with more bytes of a paste, or with the paste thrown away if it is too long.
    pub open spec fn retained(self, bytes: Seq<u8>) -> FramerView {
        let body = self.paste->0;
        if self.overflow {
            self
        } else if body.len() + bytes.len() > MAX_TEXT {
            FramerView { paste: Some(seq![]), overflow: true, ..self }
        } else {
            FramerView { paste: Some(body + bytes), ..self }
        }
    }

    /// What a paste that is complete stands for.
    pub open spec fn pasted(self) -> InputView {
        if self.overflow {
            InputView::Rejected("Paste exceeds 1 MiB; nothing was inserted"@)
        } else if valid_utf8(self.paste->0) {
            InputView::Paste(decode_utf8(self.paste->0))
        } else {
            InputView::Rejected("Paste is not UTF-8; nothing was inserted"@)
        }
    }

    /// What one byte of a paste does.
    pub open spec fn paste_advanced(self, byte: u8) -> (FramerView, Option<InputView>) {
        if byte == paste_end()[self.matched] {
            if self.matched == 5 {
                (FramerView { paste: None, matched: 0, ..self }, Some(self.pasted()))
            } else {
                (FramerView { matched: self.matched + 1, ..self }, None)
            }
        } else {
            let kept = FramerView { matched: 0, ..self }.retained(
                paste_end().take(self.matched),
            );
            if byte == 27 {
                (FramerView { matched: 1, ..kept }, None)
            } else {
                (kept.retained(seq![byte]), None)
            }
        }
    }

    /// What one byte of a frame does.
    pub open spec fn frame_advanced(self, byte: u8) -> (FramerView, Option<InputView>) {
        let f = self.frame.push(byte);
        let clear = FramerView { frame: seq![], ..self };
        if verdict(f) is Invalid {
            (clear, Some(InputView::Rejected("Input is not UTF-8"@)))
        } else if f.len() > MAX_FRAME {
            (
                FramerView {
                    discard: if verdict(f) is Complete {
                        None
                    } else {
                        Some(opens_string(f))
                    },
                    ..clear
                },
                Some(InputView::Rejected("Terminal input sequence exceeds its limit"@)),
            )
        } else if verdict(f) is Incomplete {
            (FramerView { frame: f, ..self }, None)
        } else if f == paste_start() {
            (
                FramerView { paste: Some(seq![]), matched: 0, overflow: false, ..clear },
                None,
            )
        } else {
            (clear, decoded(f))
        }
    }

    /// What one byte does: the next state, and what it completes.
    pub open spec fn advanced(self, byte: u8) -> (FramerView, Option<InputView>) {
        if self.paste is Some {
            self.paste_advanced(byte)
        } else if self.discard is Some {
            let ended = if self.discard->0 {
                byte == 7 || (self.discard_escape && byte == 0x5c)
            } else {
                ends_sequence(byte)
            };
            (
                FramerView {
                    discard: if ended {
                        None
                    } else {
                        self.discard
                    },
                    discard_escape: byte == 27 && !ended,
                    ..self
                },
                None,
            )
        } else {
            self.frame_advanced(byte)
        }
    }

    /// What waiting without a further byte does.
    pub open spec fn flushed(self) -> (FramerView, Option<InputView>) {
        let clear = FramerView { frame: seq![], ..self };
        if self.frame.len() == 1 && self.frame[0] == 27 {
            (
                clear,
                Some(
                    InputView::Key(
                        KeyEvent {
                            code: KeyCode::Escape,
                            control: false,
                            alt: false,
                            shift: false,
                            release: false,
                        },
                    ),
                ),
            )
        } else if self.frame.len() > 0 && self.frame[0] == 27 {
            (
                clear,
                Some(InputView::Rejected("Incomplete terminal escape sequence discarded"@)),
            )
        } else {
            (self, None)
        }
    }

    /// What several bytes do: the last state, and everything they complete, in order.
    pub open spec fn fed(self, bytes: Seq<u8>) -> (FramerView, Seq<InputView>)
        decreases bytes.len(),
    {
        if bytes.len() == 0 {
            (self, seq![])
        } else {
            let (before, said) = self.fed(bytes.drop_last());
            let (after, one) = before.advanced(bytes.last());
            (
                after,
                match one {
                    Some(input) => said.push(input),
                    None => said,
                },
            )
        }
    }
}

/// A byte keeps the framer valid: its storage stays bounded whatever comes in.
pub proof fn law_framer_bounded(v: FramerView, byte: u8)
    requires
        v.valid(),
    ensures
        v.advanced(byte).0.valid(),
        v.flushed().0.valid(),
{
    if v.paste is Some {
        assert(paste_end().take(v.matched).len() == v.matched);
    } else if v.discard is None {
        let f = v.frame.push(byte);
        let clear = FramerView { frame: seq![], ..v };
        assert(clear.framing());
        if verdict(f) is Incomplete {
            assert(FramerView { frame: f, ..v }.framing());
        }
    }
}

/// Splits bytes into text, control sequences, control strings and pastes.
#[derive(Debug)]
pub struct Framer {
    frame: Vec<u8>,
    paste: Option<Vec<u8>>,
    paste_match: usize,
    overflow: bool,
    discard: Option<bool>,
    discard_escape: bool,
}

impl View for Framer {
    type V = FramerView;

    closed spec fn view(&self) -> FramerView {
        FramerView {
            frame: self.frame@,
            paste: match self.paste {
                Some(body) => Some(body@),
                None => None,
            },
            matched: self.paste_match as int,
            overflow: self.overflow,
            discard: self.discard,
            discard_escape: self.discard_escape,
        }
    }
}

impl Default for Framer {
    fn default() -> (r: Self)
        ensures
            r@ == FramerView::idle(false),
            r@.valid(),
    {
        let r = Framer {
            frame: Vec::new(),
            paste: None,
            paste_match: 0,
            overflow: false,
            discard: None,
            discard_escape: false,
        };
        proof {
            assert(r@ =~= FramerView::idle(false));
            assert(r@.framing());
        }
        r
    }
}

fn is_paste_start(f: &Vec<u8>) -> (r: bool)
    ensures
        r == (f@ == paste_start()),
{
    let r: bool = f.len() == 6 && f[0] == 27 && f[1] == 91 && f[2] == 50 && f[3] == 48 && f[4]
        == 48 && f[5] == 126;
    proof {
        if r {
            assert(f@ =~= paste_start());
        }
    }
    r
}

impl Framer {
    /// Takes one byte, and hands out what it completes.
    pub fn advance(&mut self, byte: u8) -> (r: Option<Input>)
        requires
            old(self)@.valid(),
        ensures
            final(self)@.valid(),
            (final(self)@, said(r)) == old(self)@.advanced(byte),
    {
        let ghost v = self@;
        proof {
            law_framer_bounded(v, byte);
        }
        if self.paste.is_some() {
            return self.paste_byte(byte);
        }
        if let Some(string) = self.discard {
            let ended: bool = if string {
                byte == 7 || (self.discard_escape && byte == 0x5c)
            } else {
                0x40 <= byte && byte <= 0x7e
            };
            self.discard_escape = byte == 27 && !ended;
            if ended {
                self.discard = None;
            }
            proof {
                assert(self@ =~= v.advanced(byte).0);
            }
            return None;
        }
        self.frame.push(byte);
        let ghost f = v.frame.push(byte);
        let n: usize = self.frame.len();
        let escape: bool = self.frame[0] == 27;
        let string: bool = escape && n > 1 && (self.frame[1] == 0x5d || self.frame[1] == 0x50
            || self.frame[1] == 0x5f || self.frame[1] == 0x5e);
        let progress: Progress = if string {
            if byte == 7 || (self.frame[n - 2] == 27 && byte == 0x5c) {
                Progress::Complete
            } else {
                Progress::Incomplete
            }
        } else if escape && n > 1 && (self.frame[1] == 0x5b || self.frame[1] == 0x4f) {
            if n > 2 && 0x40 <= byte && byte <= 0x7e {
                Progress::Complete
            } else {
                Progress::Incomplete
            }
        } else if escape && n == 1 {
            Progress::Incomplete
        } else {
            let from: usize = if escape {
                1
            } else {
                0
            };
            proof {
                assert(f.skip(0) =~= f);
                assert(f.drop_last() =~= v.frame);
                if escape {
                    assert(f.skip(1).drop_last() =~= v.frame.skip(1));
                }
            }
            judge(self.frame.as_slice(), from)
        };
        proof {
            assert(progress == verdict(f));
        }
        if let Progress::Invalid = progress {
            self.frame = Vec::new();
            proof {
                assert(self@ =~= v.advanced(byte).0);
            }
            return Some(Input::Rejected("Input is not UTF-8"));
        }
        if n > MAX_FRAME {
            self.frame = Vec::new();
            if let Progress::Incomplete = progress {
                self.discard = Some(string);
            }
            proof {
                assert(self@ =~= v.advanced(byte).0);
            }
            return Some(Input::Rejected("Terminal input sequence exceeds its limit"));
        }
        if let Progress::Incomplete = progress {
            proof {
                assert(self@ =~= v.advanced(byte).0);
            }
            return None;
        }
        if is_paste_start(&self.frame) {
            self.frame = Vec::new();
            self.paste = Some(Vec::new());
            self.paste_match = 0;
            self.overflow = false;
            proof {
                assert(self@ =~= v.advanced(byte).0);
            }
            return None;
        }
        let r = decode(self.frame.as_slice());
        self.frame = Vec::new();
        proof {
            assert(self@ =~= v.advanced(byte).0);
        }
        r
    }

    /// Keeps one byte of a paste, or throws the paste away if it is too long.
    fn retain_paste_byte(&mut self, byte: u8)
        requires
            old(self)@.paste is Some,
            old(self)@.paste->0.len() <= MAX_TEXT,
        ensures
            final(self)@ == old(self)@.retained(seq![byte]),
    {
        let ghost v = self@;
        if self.overflow {
            return;
        }
        let mut body: Vec<u8> = Vec::new();
        if let Some(held) = &mut self.paste {
            std::mem::swap(&mut body, held);
        }
        proof {
            assert(body@ == v.paste->0);
        }
        if body.len() == MAX_TEXT {
            self.paste = Some(Vec::new());
            self.overflow = true;
        } else {
            body.push(byte);
            proof {
                assert(body@ =~= v.paste->0 + seq![byte]);
            }
            self.paste = Some(body);
        }
        proof {
            assert(self@ =~= v.retained(seq![byte]));
        }
    }

    /// Takes one byte of a paste. The paste is handed out when its closing mark is complete.
    fn paste_byte(&mut self, byte: u8) -> (r: Option<Input>)
        requires
            old(self)@.valid(),
            old(self)@.paste is Some,
        ensures
            (final(self)@, said(r)) == old(self)@.paste_advanced(byte),
    {
        let ghost v = self@;
        if byte == end_byte(self.paste_match) {
            if self.paste_match != 5 {
                self.paste_match = self.paste_match + 1;
                proof {
                    assert(self@ =~= v.paste_advanced(byte).0);
                }
                return None;
            }
            let body = self.paste.take();
            self.paste_match = 0;
            proof {
                assert(self@ =~= v.paste_advanced(byte).0);
            }
            if self.overflow {
                return Some(Input::Rejected("Paste exceeds 1 MiB; nothing was inserted"));
            }
            match body {
                Some(body) => {
                    let ghost bytes = body@;
                    match decode_text(body) {
                        Some(text) => {
                            proof {
                                encode_utf8_decode_utf8(text@);
                            }
                            return Some(Input::Terminal(Event::Paste(text)));
                        },
                        None => {
                            return Some(
                                Input::Rejected("Paste is not UTF-8; nothing was inserted"),
                            );
                        },
                    }
                },
                None => {
                    return None;
                },
            }
        }
        let matched: usize = self.paste_match;
        self.paste_match = 0;
        let ghost start = self@;
        proof {
            assert(start =~= FramerView { matched: 0, ..v });
            assert(paste_end().take(0) =~= Seq::<u8>::empty());
            assert(start.paste->0 + Seq::<u8>::empty() =~= start.paste->0);
            assert(start.retained(paste_end().take(0)) =~= start);
        }
        let mut i: usize = 0;
        while i < matched
            invariant
                i <= matched < 6,
                start.paste is Some,
                start.paste->0.len() <= MAX_TEXT,
                start.overflow ==> start.paste->0.len() == 0,
                self@ == start.retained(paste_end().take(i as int)),
            decreases matched - i,
        {
            let b: u8 = end_byte(i);
            proof {
                assert(paste_end().take(i as int).len() == i);
            }
            self.retain_paste_byte(b);
            proof {
                let some = paste_end().take(i as int);
                assert(paste_end().take(i as int + 1) =~= some + seq![b]);
                assert(start.paste->0 + (some + seq![b]) =~= (start.paste->0 + some) + seq![b]);
                assert(self@ =~= start.retained(paste_end().take(i as int + 1)));
            }
            i += 1;
        }
        if byte == 27 {
            self.paste_match = 1;
            proof {
                assert(self@ =~= v.paste_advanced(byte).0);
            }
        } else {
            self.retain_paste_byte(byte);
        }
        None
    }

    /// Gives up on an escape that nothing followed: alone it is the escape key, and with an
    /// unfinished sequence it is thrown away.
    pub fn flush_escape(&mut self) -> (r: Option<Input>)
        requires
            old(self)@.valid(),
        ensures
            final(self)@.valid(),
            (final(self)@, said(r)) == old(self)@.flushed(),
    {
        let ghost v = self@;
        proof {
            law_framer_bounded(v, 0);
        }
        if self.frame.len() == 0 || self.frame[0] != 27 {
            return None;
        }
        let alone: bool = self.frame.len() == 1;
        self.frame = Vec::new();
        proof {
            assert(self@ =~= v.flushed().0);
        }
        if alone {
            Some(Input::Terminal(Event::Key(KeyEvent::plain(KeyCode::Escape))))
        } else {
            Some(Input::Rejected("Incomplete terminal escape sequence discarded"))
        }
    }

    /// Bytes that the framer holds.
    pub fn held_bytes(&self) -> (n: usize)
        requires
            self@.valid(),
        ensures
            n == self@.frame.len() + (if self@.paste is Some { self@.paste->0.len() } else { 0 }),
            n <= MAX_FRAME + MAX_TEXT,
    {
        let pasted: usize = match &self.paste {
            Some(body) => body.len(),
            None => 0,
        };
        self.frame.len() + pasted
    }
}

/// Whether bytes hold the closing mark of a paste.
pub open spec fn closes(bytes: Seq<u8>) -> bool {
    exists|i: int| 0 <= i && i + 6 <= bytes.len() && #[trigger] bytes.subrange(i, i + 6)
        == paste_end()
}

/// A paste under way: what came in is what is kept and the part of the closing mark behind it,
/// unless it was too long.
spec fn pasting_through(v: FramerView, bytes: Seq<u8>) -> bool {
    &&& v == (FramerView { paste: v.paste, matched: v.matched, overflow: v.overflow, ..FramerView::idle(false) })
    &&& v.paste is Some
    &&& 0 <= v.matched < 6
    &&& v.paste->0.len() <= MAX_TEXT
    &&& !v.overflow ==> v.paste->0 + paste_end().take(v.matched) == bytes
    &&& v.overflow ==> bytes.len() > MAX_TEXT && v.paste->0.len() == 0
    &&& v.matched <= bytes.len()
    &&& bytes.skip(bytes.len() - v.matched) == paste_end().take(v.matched)
}

proof fn lemma_pasting_step(v: FramerView, bytes: Seq<u8>, b: u8)
    requires
        pasting_through(v, bytes),
        !closes(bytes.push(b)),
    ensures
        v.advanced(b).1 is None,
        pasting_through(v.advanced(b).0, bytes.push(b)),
        b == 27 ==> v.advanced(b).0.matched == 1,
{
    let m: int = v.matched;
    let w = v.advanced(b).0;
    let all = bytes.push(b);
    assert(paste_end().take(m).len() == m);
    if b == paste_end()[m] {
        assert(paste_end().take(m + 1) =~= paste_end().take(m).push(b));
        assert(all.skip(all.len() - (m + 1)) =~= bytes.skip(bytes.len() - m).push(b));
        if m == 5 {
            assert(all.subrange(all.len() - 6, all.len() - 6 + 6) =~= all.skip(all.len() - 6));
            assert(paste_end().take(6) =~= paste_end());
            assert(closes(all));
        }
        assert(v.paste->0 + paste_end().take(m + 1) =~= (v.paste->0 + paste_end().take(m)).push(b));
    } else {
        let kept = FramerView { matched: 0, ..v }.retained(paste_end().take(m));
        if b == 27 {
            assert(paste_end().take(1) =~= seq![27u8]);
            assert(all.skip(all.len() - 1) =~= seq![27u8]);
            assert(!kept.overflow ==> kept.paste->0 + paste_end().take(1) =~= all);
        } else {
            assert(paste_end().take(0) =~= Seq::<u8>::empty());
            assert(all.skip(all.len() as int) =~= Seq::<u8>::empty());
            assert(!w.overflow ==> w.paste->0 + paste_end().take(0) =~= all);
        }
    }
}

proof fn lemma_pasting(bytes: Seq<u8>)
    requires
        !closes(bytes),
    ensures
        FramerView::pasting().fed(bytes).1 == Seq::<InputView>::empty(),
        pasting_through(FramerView::pasting().fed(bytes).0, bytes),
    decreases bytes.len(),
{
    if bytes.len() == 0 {
        assert(paste_end().take(0) =~= Seq::<u8>::empty());
        assert(Seq::<u8>::empty() + paste_end().take(0) =~= bytes);
        assert(bytes.skip(0) =~= paste_end().take(0));
    } else {
        let before = bytes.drop_last();
        assert(before.push(bytes.last()) =~= bytes);
        assert(!closes(before)) by {
            if closes(before) {
                let i = choose|i: int|
                    0 <= i && i + 6 <= before.len() && #[trigger] before.subrange(i, i + 6)
                        == paste_end();
                assert(bytes.subrange(i, i + 6) =~= before.subrange(i, i + 6));
            }
        }
        lemma_pasting(before);
        lemma_pasting_step(FramerView::pasting().fed(before).0, before, bytes.last());
    }
}

/// A paste is atomic: whatever bytes stand between its two marks come out as one input, as the
/// text they encode, and none of them is taken for a key. A paste that is too long or not UTF-8
/// is rejected as a whole, also as one input. Afterwards the framer is ready for the next frame.
pub proof fn law_paste(body: Seq<u8>)
    requires
        !closes(body),
    ensures
        FramerView::pasting().fed(body + paste_end()).1 == seq![
            if body.len() > MAX_TEXT {
                InputView::Rejected("Paste exceeds 1 MiB; nothing was inserted"@)
            } else if valid_utf8(body) {
                InputView::Paste(decode_utf8(body))
            } else {
                InputView::Rejected("Paste is not UTF-8; nothing was inserted"@)
            },
        ],
        FramerView::pasting().fed(body + paste_end()).0 == FramerView::idle(body.len() > MAX_TEXT),
{
    let s1 = body.push(27u8);
    let v1 = FramerView::pasting().fed(s1).0;
    lemma_first_mark(body);
    lemma_closing(FramerView::pasting(), s1, v1);
    assert(s1.push(91u8).push(50u8).push(48u8).push(49u8).push(126u8) =~= body + paste_end());
    assert(FramerView { matched: 0, paste: None, ..v1 } =~= FramerView::idle(
        body.len() > MAX_TEXT,
    ));
}

/// The first byte of the closing mark behind a paste.
proof fn lemma_first_mark(body: Seq<u8>)
    requires
        !closes(body),
    ensures
        FramerView::pasting().fed(body.push(27u8)).1 == Seq::<InputView>::empty(),
        ({
            let v = FramerView::pasting().fed(body.push(27u8)).0;
            &&& v == (FramerView {
                paste: v.paste,
                matched: 1,
                overflow: v.overflow,
                ..FramerView::idle(false)
            })
            &&& v.paste is Some
            &&& v.overflow == (body.len() > MAX_TEXT)
            &&& !v.overflow ==> v.paste->0 == body
        }),
{
    let start = FramerView::pasting();
    lemma_pasting(body);
    let s1 = body.push(27u8);
    let v0 = start.fed(body).0;
    let v1 = start.fed(s1).0;
    lemma_fed_push(start, body, 27u8);
    lemma_escape_opens(body);
    lemma_pasting_step(v0, body, 27u8);
    if !v1.overflow {
        lemma_kept(v1, body);
    }
    if v1.overflow && body.len() <= MAX_TEXT {
        lemma_not_overflown(v0, body);
    }
}

/// An escape does not complete the closing mark.
proof fn lemma_escape_opens(body: Seq<u8>)
    requires
        !closes(body),
    ensures
        !closes(body.push(27u8)),
{
    let s1 = body.push(27u8);
    if closes(s1) {
        let i = choose|i: int|
            0 <= i && i + 6 <= s1.len() && #[trigger] s1.subrange(i, i + 6) == paste_end();
        if i + 6 <= body.len() {
            assert(body.subrange(i, i + 6) =~= s1.subrange(i, i + 6));
        } else {
            assert(s1.subrange(i, i + 6)[5] == 27);
        }
    }
}

/// Behind the first byte of the closing mark exactly the paste is kept.
proof fn lemma_kept(v: FramerView, body: Seq<u8>)
    requires
        pasting_through(v, body.push(27u8)),
        v.matched == 1,
        !v.overflow,
    ensures
        v.paste->0 == body,
{
    assert(paste_end().take(1) =~= seq![27u8]);
    assert((v.paste->0 + seq![27u8]).drop_last() =~= v.paste->0);
    assert(body.push(27u8).drop_last() =~= body);
}

proof fn lemma_fed_push(v: FramerView, bytes: Seq<u8>, b: u8)
    ensures
        v.fed(bytes.push(b)) == ({
            let (before, said) = v.fed(bytes);
            let (after, one) = before.advanced(b);
            (
                after,
                match one {
                    Some(input) => said.push(input),
                    None => said,
                },
            )
        }),
{
    assert(bytes.push(b).drop_last() =~= bytes);
}

/// The rest of the closing mark hands the paste out.
proof fn lemma_closing(start: FramerView, bytes: Seq<u8>, v: FramerView)
    requires
        start.fed(bytes) == (v, Seq::<InputView>::empty()),
        v.paste is Some,
        v.matched == 1,
    ensures
        start.fed(bytes.push(91u8).push(50u8).push(48u8).push(49u8).push(126u8)) == (
            FramerView { matched: 0, paste: None, ..v },
            seq![v.pasted()],
        ),
{
    let s2 = bytes.push(91u8);
    let s3 = s2.push(50u8);
    let s4 = s3.push(48u8);
    let s5 = s4.push(49u8);
    lemma_fed_push(start, bytes, 91u8);
    assert(start.fed(s2).0 == FramerView { matched: 2, ..v });
    lemma_fed_push(start, s2, 50u8);
    assert(start.fed(s3).0 == FramerView { matched: 3, ..v });
    lemma_fed_push(start, s3, 48u8);
    assert(start.fed(s4).0 == FramerView { matched: 4, ..v });
    lemma_fed_push(start, s4, 49u8);
    assert(start.fed(s5).0 == FramerView { matched: 5, ..v });
    lemma_fed_push(start, s5, 126u8);
    assert(FramerView { matched: 5, ..v }.pasted() == v.pasted());
    assert(Seq::<InputView>::empty().push(v.pasted()) =~= seq![v.pasted()]);
}

/// The first byte of the closing mark does not make a paste that fits too long.
proof fn lemma_not_overflown(v: FramerView, bytes: Seq<u8>)
    requires
        pasting_through(v, bytes),
        bytes.len() <= MAX_TEXT,
    ensures
        !v.advanced(27u8).0.overflow,
{
    assert(paste_end().take(v.matched).len() == v.matched);
    assert(v.paste->0.len() + v.matched == bytes.len());
}

/// The modifiers of a key, each by a bit of its own: one for shift, two for alt and four for
/// control; any other bit changes nothing.
pub proof fn law_modifiers(code: KeyCode, bits: u8, release: bool)
    ensures
        key_of((code, bits, release)).code == code,
        key_of((code, bits, release)).release == release,
        key_of((code, bits, release)).shift <==> bits % 2 == 1,
        key_of((code, bits, release)).alt <==> (bits / 2) % 2 == 1,
        key_of((code, bits, release)).control <==> (bits / 4) % 2 == 1,
        bits == 1 ==> key_of((code, bits, release)) == (KeyEvent {
            code,
            shift: true,
            alt: false,
            control: false,
            release,
        }),
        bits == 2 ==> key_of((code, bits, release)) == (KeyEvent {
            code,
            shift: false,
            alt: true,
            control: false,
            release,
        }),
        bits == 4 ==> key_of((code, bits, release)) == (KeyEvent {
            code,
            shift: false,
            alt: false,
            control: true,
            release,
        }),
{
}

/// A byte of ASCII other than the escape is a frame by itself: it is decoded at once, and the next
/// byte begins the next frame.
pub proof fn law_single_bytes(byte: u8, overflow: bool)
    requires
        byte <= 0x7f,
        byte != 27,
    ensures
        FramerView::idle(overflow).advanced(byte) == (FramerView::idle(overflow), decoded(seq![byte])),
{
    let f = Seq::<u8>::empty().push(byte);
    assert(f =~= seq![byte]);
    assert(f.len() == 1 && f[0] == byte);
    lemma_whole(f);
    assert(paste_start().len() == 6);
}

/// An escape that nothing follows is the escape key.
pub proof fn law_lone_escape(overflow: bool)
    ensures
        FramerView::idle(overflow).advanced(27).1 is None,
        FramerView::idle(overflow).advanced(27).0.flushed() == (
            FramerView::idle(overflow),
            Some(
                InputView::Key(
                    KeyEvent {
                        code: KeyCode::Escape,
                        control: false,
                        alt: false,
                        shift: false,
                        release: false,
                    },
                ),
            ),
        ),
{
    let f = Seq::<u8>::empty().push(27u8);
    assert(f.len() == 1 && f[0] == 27);
}

/// A control sequence goes on to its first byte from `@` to `~` behind its opening, and a control
/// string to a bell or an escape and a backslash; until then nothing is said.
pub proof fn law_sequences(v: FramerView, byte: u8)
    requires
        v.paste is None,
        v.discard is None,
        v.frame.len() >= 2,
        v.frame.len() < 4096,
        v.frame[0] == 27,
    ensures
        ({
            let (w, said) = v.advanced(byte);
            let f = v.frame.push(byte);
            let sequence = v.frame[1] == 0x5b || v.frame[1] == 0x4f;
            let string = v.frame[1] == 0x5d || v.frame[1] == 0x50 || v.frame[1] == 0x5f || v.frame[1]
                == 0x5e;
            let ends = byte == 7 || (byte == 0x5c && v.frame.last() == 27);
            &&& sequence && !(0x40 <= byte <= 0x7e) ==> said is None && w == (FramerView {
                frame: f,
                ..v
            })
            &&& sequence && 0x40 <= byte <= 0x7e && f != seq![27u8, 91u8, 50u8, 48u8, 48u8, 126u8]
                ==> said == decoded(f) && w == (FramerView { frame: seq![], ..v })
            &&& string && !ends ==> said is None && w == (FramerView { frame: f, ..v })
            &&& string && ends ==> said == decoded(f) && w == (FramerView { frame: seq![], ..v })
        }),
{
    let f = v.frame.push(byte);
    assert(f[0] == 27 && f[1] == v.frame[1]);
    assert(f.last() == byte);
    assert(f[f.len() - 2] == v.frame.last());
    assert(paste_start()[1] == 91);
}

/// A frame has at most 4,096 bytes. One that would have more is rejected, and what is left of it is
/// passed over in silence up to its end.
pub proof fn law_frame_limit(v: FramerView, byte: u8)
    requires
        v.paste is None,
        v.discard is None,
        v.frame.len() == 4096,
        opens_sequence(v.frame) || opens_string(v.frame),
    ensures
        ({
            let (w, said) = v.advanced(byte);
            &&& said == Some(InputView::Rejected("Terminal input sequence exceeds its limit"@))
            &&& w.frame.len() == 0
            &&& w.discard is Some ==> w.advanced(65).1 is None && w.advanced(7).1 is None
        }),
{
    let f = v.frame.push(byte);
    assert(f[0] == v.frame[0] && f[1] == v.frame[1]);
}

/// What opens a paste says nothing by itself, and what comes behind it is pasted.
pub proof fn law_paste_opens(v: FramerView)
    requires
        v == (FramerView { frame: seq![27u8, 91u8, 50u8, 48u8, 48u8], ..FramerView::idle(false) }),
    ensures
        v.advanced(126) == (FramerView::pasting(), None::<InputView>),
{
    let f = v.frame.push(126u8);
    assert(f =~= seq![27u8, 91u8, 50u8, 48u8, 48u8, 126u8]);
    assert(f =~= paste_start());
    assert(f.last() == 126);
}

/// A paste ends at its closing mark, which is written out here, and holds up to 1 MiB.
pub proof fn law_paste_closes(body: Seq<u8>)
    requires
        !closes(body),
        body.len() <= 1048576,
        valid_utf8(body),
    ensures
        FramerView::pasting().fed(body + seq![27u8, 91u8, 50u8, 48u8, 49u8, 126u8]).1 == seq![
            InputView::Paste(decode_utf8(body)),
        ],
{
    law_paste(body);
    assert(paste_end() =~= seq![27u8, 91u8, 50u8, 48u8, 49u8, 126u8]);
}

} // verus!
