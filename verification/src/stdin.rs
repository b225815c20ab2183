//! Bounded lines from standard input.
use vstd::prelude::*;
use vstd::string::*;
use vstd::utf8::*;
use crate::editor::MAX_TEXT;
use crate::input::decode_text;

verus! {

/// What one read of a line gave.
#[derive(Debug)]
pub enum SessionInput {
    Line(String),
    TooLarge,
    InvalidUtf8,
    Error(String),
    Eof,
}

/// Whether no further line follows.
pub fn is_last(input: &SessionInput) -> (r: bool)
    ensures
        r == (*input is Eof || *input is Error),
{
    match input {
        SessionInput::Eof => true,
        SessionInput::Error(_) => true,
        _ => false,
    }
}

/// The bytes of a line that came in so far. A line that is too long is not kept.
#[verifier::ext_equal]
pub struct LineView {
    pub bytes: Seq<u8>,
    pub oversized: bool,
}

impl LineView {
    pub open spec fn empty() -> LineView {
        LineView { bytes: seq![], oversized: false }
    }

    /// The line with more bytes. It may have one byte more than a text, for its newline.
    pub open spec fn extended(self, chunk: Seq<u8>) -> LineView {
        if self.oversized {
            self
        } else if self.bytes.len() + chunk.len() > MAX_TEXT + 1 {
            LineView { bytes: seq![], oversized: true }
        } else {
            LineView { bytes: self.bytes + chunk, oversized: false }
        }
    }
}

/// The bytes before the line end: without trailing newlines and carriage returns.
pub open spec fn without_line_end(s: Seq<u8>) -> Seq<u8>
    decreases s.len(),
{
    if s.len() > 0 && (s.last() == 10 || s.last() == 13) {
        without_line_end(s.drop_last())
    } else {
        s
    }
}

/// What a complete line is.
pub open spec fn line_is(v: LineView, r: SessionInput) -> bool {
    if v.oversized {
        r is TooLarge
    } else if valid_utf8(without_line_end(v.bytes)) {
        r matches SessionInput::Line(text) && text@ == decode_utf8(without_line_end(v.bytes))
    } else {
        r is InvalidUtf8
    }
}

/// The number of bytes of a chunk that belong to the line: up to its first newline, or all.
pub open spec fn line_part(chunk: Seq<u8>) -> nat
    decreases chunk.len(),
{
    if chunk.len() == 0 {
        0
    } else if chunk[0] == 10 {
        1
    } else {
        1 + line_part(chunk.drop_first())
    }
}

/// How a line is cut into chunks does not matter.
pub proof fn law_chunks(v: LineView, a: Seq<u8>, b: Seq<u8>)
    ensures
        v.extended(a).extended(b) == v.extended(a + b),
{
    assert(v.bytes + (a + b) =~= (v.bytes + a) + b);
}

/// Reads one line in chunks.
#[derive(Debug)]
pub struct LineReader {
    bytes: Vec<u8>,
    oversized: bool,
}

impl View for LineReader {
    type V = LineView;

    closed spec fn view(&self) -> LineView {
        LineView { bytes: self.bytes@, oversized: self.oversized }
    }
}

fn line_bytes(chunk: &[u8]) -> (n: usize)
    ensures
        n == line_part(chunk@),
        n <= chunk@.len(),
        chunk@.len() > 0 ==> n > 0,
{
    let total: usize = chunk.len();
    let mut i: usize = 0;
    proof {
        assert(chunk@.skip(0) =~= chunk@);
    }
    while i < total
        invariant
            total == chunk@.len(),
            i <= total,
            i + line_part(chunk@.skip(i as int)) == line_part(chunk@),
        decreases total - i,
    {
        proof {
            assert(chunk@.skip(i as int).drop_first() =~= chunk@.skip(i as int + 1));
        }
        if chunk[i] == 10 {
            return i + 1;
        }
        i += 1;
    }
    i
}

impl LineReader {
    pub fn new() -> (r: LineReader)
        ensures
            r@ == LineView::empty(),
    {
        let r = LineReader { bytes: Vec::new(), oversized: false };
        proof {
            assert(r@ =~= LineView::empty());
        }
        r
    }

    /// Takes the part of a chunk that belongs to the line: says how many bytes that is, and
    /// whether the line is complete.
    pub fn feed(&mut self, chunk: &[u8]) -> (r: (usize, bool))
        ensures
            r.0 == line_part(chunk@),
            r.0 <= chunk@.len(),
            r.1 == (r.0 > 0 && chunk@[r.0 - 1] == 10),
            final(self)@ == old(self)@.extended(chunk@.take(r.0 as int)),
    {
        let ghost v = self@;
        let n: usize = line_bytes(chunk);
        let ghost part = chunk@.take(n as int);
        if !self.oversized {
            if self.bytes.len().saturating_add(n) > MAX_TEXT + 1 {
                self.oversized = true;
                self.bytes = Vec::new();
            } else {
                let mut i: usize = 0;
                while i < n
                    invariant
                        i <= n <= chunk@.len(),
                        self.bytes@ == v.bytes + chunk@.take(i as int),
                        self.oversized == v.oversized,
                    decreases n - i,
                {
                    self.bytes.push(chunk[i]);
                    i += 1;
                    proof {
                        assert(chunk@.take(i as int) =~= chunk@.take(i - 1).push(chunk@[i - 1]));
                    }
                }
            }
        }
        proof {
            assert(self@ =~= v.extended(part));
        }
        (n, n > 0 && chunk[n - 1] == 10)
    }

    /// The line, when its newline came in.
    pub fn finish(self) -> (r: SessionInput)
        ensures
            line_is(self@, r),
    {
        if self.oversized {
            return SessionInput::TooLarge;
        }
        let mut bytes: Vec<u8> = self.bytes;
        while bytes.len() > 0 && (bytes[bytes.len() - 1] == 10 || bytes[bytes.len() - 1] == 13)
            invariant
                without_line_end(bytes@) == without_line_end(self.bytes@),
            decreases bytes@.len(),
        {
            proof {
                assert(bytes@.last() == bytes@[bytes@.len() - 1]);
            }
            let _ = bytes.pop();
        }
        match decode_text(bytes) {
            Some(text) => {
                proof {
                    encode_utf8_decode_utf8(text@);
                }
                SessionInput::Line(text)
            },
            None => SessionInput::InvalidUtf8,
        }
    }

    /// The line, when the input ended: nothing at all is the end.
    pub fn end(self) -> (r: SessionInput)
        ensures
            self@ == LineView::empty() ==> r is Eof,
            self@ != LineView::empty() ==> line_is(self@, r),
    {
        if self.bytes.len() == 0 && !self.oversized {
            proof {
                assert(self@ =~= LineView::empty());
            }
            return SessionInput::Eof;
        }
        self.finish()
    }
}

/// A line may have 1 MiB and its newline: up to that every byte is kept, and beyond it the whole line
/// is too large and stays so.
pub proof fn law_line_bound(v: LineView, chunk: Seq<u8>)
    ensures
        !v.oversized && v.bytes.len() + chunk.len() <= 1048577 ==> v.extended(chunk).bytes
            == v.bytes + chunk && !v.extended(chunk).oversized,
        !v.oversized && v.bytes.len() + chunk.len() > 1048577 ==> v.extended(chunk).oversized,
        v.oversized ==> v.extended(chunk).oversized,
{
}

/// What ends a line is taken off, newlines and carriage returns alone, and nothing of the line.
pub proof fn law_line_end(s: Seq<u8>, end: Seq<u8>)
    requires
        s.len() == 0 || (s.last() != 10 && s.last() != 13),
        forall|i: int| 0 <= i < end.len() ==> end[i] == 10 || end[i] == 13,
    ensures
        without_line_end(s + end) == s,
    decreases end.len(),
{
    let t = s + end;
    if end.len() > 0 {
        assert(t.last() == end[end.len() - 1]);
        assert(t.drop_last() =~= s + end.drop_last());
        law_line_end(s, end.drop_last());
    } else {
        assert(t =~= s);
    }
}

/// Of a chunk everything up to and with its first newline belongs to the line.
pub proof fn law_line_part(a: Seq<u8>, b: Seq<u8>)
    requires
        forall|i: int| 0 <= i < a.len() ==> a[i] != 10,
    ensures
        line_part(a) == a.len(),
        line_part(a + seq![10u8] + b) == a.len() + 1,
    decreases a.len(),
{
    let t = a + seq![10u8] + b;
    if a.len() > 0 {
        law_line_part(a.drop_first(), b);
        assert(t.drop_first() =~= a.drop_first() + seq![10u8] + b);
        assert(t[0] == a[0]);
    } else {
        assert(t[0] == 10);
    }
}

/// A line that is complete is one of three things: too large, not a text, or its text without the
/// line breaks at its end.
pub proof fn law_complete_line(v: LineView, r: SessionInput)
    requires
        line_is(v, r),
    ensures
        r is TooLarge <==> v.oversized,
        r is InvalidUtf8 <==> !v.oversized && !valid_utf8(without_line_end(v.bytes)),
        r is Line <==> !v.oversized && valid_utf8(without_line_end(v.bytes)),
        r matches SessionInput::Line(s) ==> s@ == decode_utf8(without_line_end(v.bytes)),
        !(r is Error) && !(r is Eof),
{
}

} // verus!
