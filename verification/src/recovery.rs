//! What is shown when a frame could not be drawn, and when it is tried again.
use ratatui::buffer::Buffer;
use ratatui::layout::Rect;
use ratatui::widgets::{Paragraph, Widget, Wrap};
use vstd::prelude::*;
use vstd::string::*;
use crate::display;
use crate::display::terminal_text;
use crate::routing::Around;
use crate::scene::Shown;
use crate::text;
use crate::text::cat3;

verus! {

/// The milliseconds before a frame that failed is tried again.
pub const RETRY_MILLISECONDS: u64 = 250;

/// The rows at the bottom that tell of a failure.
pub const MESSAGE_ROWS: u16 = 2;

/// When the next frame may be drawn.
#[derive(Clone, Copy, Debug, PartialEq, Eq, Structural)]
pub struct Recovery {
    pub deadline: Option<u64>,
}

impl Recovery {
    pub fn new() -> (r: Recovery)
        ensures
            r.deadline is None,
    {
        Recovery { deadline: None }
    }

    /// Whether a frame may be drawn at a time in milliseconds.
    pub open spec fn open_at(self, now: u64) -> bool {
        self.deadline matches Some(d) ==> now >= d
    }

    pub fn ready(&self, now: u64) -> (r: bool)
        ensures
            r == self.open_at(now),
    {
        match self.deadline {
            Some(deadline) => now >= deadline,
            None => true,
        }
    }

    /// Takes in that a frame failed.
    pub fn failed(&mut self, now: u64)
        requires
            now + RETRY_MILLISECONDS <= u64::MAX,
        ensures
            final(self).deadline == Some((now + RETRY_MILLISECONDS) as u64),
    {
        self.deadline = Some(now + RETRY_MILLISECONDS);
    }

    /// Takes in that a frame was drawn, or that another renderer draws.
    pub fn reset(&mut self)
        ensures
            final(self).deadline is None,
    {
        self.deadline = None;
    }
}

/// A cell of the terminal. Styles are named by numbers; zero is the plain one.
#[derive(Debug)]
pub struct Cell {
    pub symbol: String,
    pub style: u64,
}

/// What a [`Cell`] says.
#[verifier::ext_equal]
pub struct CellView {
    pub symbol: Seq<char>,
    pub style: u64,
}

impl View for Cell {
    type V = CellView;

    open spec fn view(&self) -> CellView {
        CellView { symbol: self.symbol@, style: self.style }
    }
}

pub open spec fn cells_of(v: Seq<Cell>) -> Seq<CellView> {
    Seq::new(v.len(), |i: int| v[i]@)
}

/// What a frame is drawn for.
#[derive(Clone, Copy, Debug, PartialEq, Eq, Structural)]
pub struct Identity {
    pub attachment: u64,
    pub presentation: u64,
    pub revision: u64,
}

/// A frame, row by row.
#[derive(Debug)]
pub struct Frame {
    pub identity: Identity,
    pub width: u16,
    pub height: u16,
    pub cells: Vec<Cell>,
    /// What can be clicked, and where.
    pub shown: Shown,
    pub around: Around,
}

impl Frame {
    /// Nothing of it can be clicked or scrolled.
    pub open spec fn is_inert(&self) -> bool {
        self.shown.is_nothing() && self.around.is_nothing()
    }

    /// Every row has its cells.
    pub open spec fn wf(&self) -> bool {
        self.cells@.len() == self.width * self.height
    }
}

/// The symbols of the cells of some rows of `reach` columns, once a text was wrapped to a width and
/// drawn into them.
pub uninterp spec fn paragraph_cells(s: Seq<char>, width: u16, height: u16, reach: u16) -> Seq<
    Seq<char>,
>;

/// `Paragraph::render` of a text that is wrapped to a width without trimming, into an empty buffer of
/// `reach` columns: the symbols of its cells, row by row. They depend on the text and the sizes alone;
/// where lines break is not stated. A line with wide clusters can come out longer than the width, by
/// less than three times the width, and never has more columns than the text has bytes. Within the
/// columns of the buffer nothing is drawn out of place, and no sum of widths passes `u16::MAX`.
#[verifier::external_body]
fn draw(s: &str, width: u16, height: u16, reach: u16) -> (r: Vec<String>)
    requires
        height <= MESSAGE_ROWS,
        width <= reach,
        4 * width <= reach || text::size(s@) <= reach,
    ensures
        text::views(r@) == paragraph_cells(s@, width, height, reach),
        r@.len() == reach * height,
{
    let mut buffer = Buffer::empty(Rect::new(0, 0, reach, height));
    let area = Rect::new(0, 0, width, height);
    Paragraph::new(s).wrap(Wrap { trim: false }).render(area, &mut buffer);
    buffer.content.iter().map(|cell| cell.symbol().to_owned()).collect()
}

/// The columns that a wrapped text is drawn into.
pub open spec fn reach_of(width: u16) -> u16 {
    if width <= 16383 {
        (4 * width) as u16
    } else {
        u16::MAX
    }
}

/// Whether a text can be drawn at a width: at any that a line can be four times as long as, or where
/// the whole text would fit into one line.
pub open spec fn drawable(s: Seq<char>, width: u16) -> bool {
    width <= 16383 || text::size(s) <= u16::MAX
}

/// The first `width` columns of each row of `reach` columns.
pub open spec fn cropped(v: Seq<Seq<char>>, width: u16, height: u16, reach: u16) -> Seq<Seq<char>> {
    Seq::new((width * height) as nat, |i: int| v[i / (width as int) * reach + i % (width as int)])
}

/// The symbols of the last rows that tell of a failure.
pub open spec fn told_cells(s: Seq<char>, width: u16, height: u16) -> Seq<Seq<char>> {
    cropped(paragraph_cells(s, width, height, reach_of(width)), width, height, reach_of(width))
}

/// The rows that tell of a failure.
pub open spec fn message_rows(height: u16) -> u16 {
    if height < MESSAGE_ROWS {
        height
    } else {
        MESSAGE_ROWS
    }
}

/// What is told of a failure.
pub open spec fn message(diagnostic: Seq<char>) -> Seq<char> {
    "Renderer: "@ + display::shown_text(diagnostic) + " · retrying"@
}

/// Whether the cells of a frame stay: it was drawn for the same conversation, by the same renderer,
/// for the same size.
pub open spec fn stays(f: Frame, identity: Identity, width: u16, height: u16) -> bool {
    f.identity.attachment == identity.attachment && f.identity.presentation
        == identity.presentation && f.width == width && f.height == height
}

/// The cells of a frame that tells of a failure in the symbols given for its last rows.
pub open spec fn failed_cells(
    identity: Identity,
    width: u16,
    height: u16,
    previous: Option<Frame>,
    symbols: Seq<Seq<char>>,
) -> Seq<CellView> {
    let kept = width * (height - message_rows(height));
    Seq::new(
        (width * height) as nat,
        |i: int|
            if i < kept {
                match previous {
                    Some(f) if stays(f, identity, width, height) => f.cells@[i]@,
                    _ => CellView { symbol: " "@, style: 0 },
                }
            } else {
                CellView { symbol: symbols[i - kept], style: 0 }
            },
    )
}

proof fn lemma_rows(width: u16, height: u16)
    ensures
        0 <= width * (height - message_rows(height)) <= width * height <= 0xfffe0001,
        width * (height - message_rows(height)) + width * message_rows(height) == width * height,
{
    let w = width as int;
    let h = height as int;
    let m = message_rows(height) as int;
    assert(w * (h - m) + w * m == w * h) by (nonlinear_arith);
    assert(0 <= w * (h - m)) by (nonlinear_arith)
        requires
            0 <= w,
            m <= h,
    ;
    assert(0 <= w * m) by (nonlinear_arith)
        requires
            0 <= w,
            0 <= m,
    ;
    assert(w * h <= 0xfffe0001) by (nonlinear_arith)
        requires
            0 <= w <= 0xffff,
            0 <= h <= 0xffff,
    ;
}

/// Puts the symbols of a message over the last rows of a frame that stays, or of an empty one.
pub fn frame_with(
    identity: Identity,
    width: u16,
    height: u16,
    previous: Option<&Frame>,
    symbols: Vec<String>,
) -> (r: Frame)
    requires
        previous matches Some(f) ==> f.wf(),
        symbols@.len() == width * message_rows(height),
    ensures
        r.wf(),
        r.is_inert(),
        r.identity == identity,
        r.width == width,
        r.height == height,
        cells_of(r.cells@) == failed_cells(
            identity,
            width,
            height,
            match previous {
                Some(f) => Some(*f),
                None => None,
            },
            text::views(symbols@),
        ),
{
    let ghost before: Option<Frame> = match previous {
        Some(f) => Some(*f),
        None => None,
    };
    let ghost rows = text::views(symbols@);
    let rows_m: u16 = if height < MESSAGE_ROWS {
        height
    } else {
        MESSAGE_ROWS
    };
    proof {
        lemma_rows(width, height);
    }
    let total: usize = ((width as u32) * (height as u32)) as usize;
    let kept: usize = ((width as u32) * ((height - rows_m) as u32)) as usize;
    let base: Option<&Frame> = match previous {
        Some(f) => if f.identity.attachment == identity.attachment && f.identity.presentation
            == identity.presentation && f.width == width && f.height == height {
            Some(f)
        } else {
            None
        },
        None => None,
    };
    let mut cells: Vec<Cell> = Vec::new();
    let mut i: usize = 0;
    let ghost goal = failed_cells(identity, width, height, before, rows);
    proof {
        assert(cells_of(cells@) =~= goal.take(0));
    }
    while i < total
        invariant
            i <= total,
            total == width * height,
            kept == width * (height - message_rows(height)),
            kept + symbols@.len() == total,
            rows == text::views(symbols@),
            goal == failed_cells(identity, width, height, before, rows),
            goal.len() == total,
            match base {
                Some(f) => f.wf() && f.width == width && f.height == height && before == Some(*f)
                    && stays(*f, identity, width, height),
                None => before matches Some(f) ==> !stays(f, identity, width, height),
            },
            cells_of(cells@) == goal.take(i as int),
        decreases total - i,
    {
        let ghost so_far = cells_of(cells@);
        let cell: Cell = if i < kept {
            match base {
                Some(f) => Cell { symbol: f.cells[i].symbol.clone(), style: f.cells[i].style },
                None => Cell { symbol: " ".to_owned(), style: 0 },
            }
        } else {
            proof {
                assert(rows[i - kept] == symbols@[i - kept]@);
            }
            Cell { symbol: symbols[i - kept].clone(), style: 0 }
        };
        proof {
            assert(cell@ == goal[i as int]);
        }
        let ghost seen = cell@;
        cells.push(cell);
        proof {
            assert(cells_of(cells@) =~= so_far.push(seen));
            assert(goal.take(i as int + 1) =~= so_far.push(seen));
        }
        i += 1;
    }
    proof {
        assert(goal.take(total as int) =~= goal);
        assert(cells_of(cells@).len() == cells@.len());
    }
    Frame { identity, width, height, cells, shown: Shown::nothing(), around: Around::nothing() }
}

/// Takes the first `width` columns of each row.
fn crop(v: Vec<String>, width: u16, height: u16, reach: u16) -> (r: Vec<String>)
    requires
        height <= MESSAGE_ROWS,
        width <= reach,
        v@.len() == reach * height,
    ensures
        text::views(r@) == cropped(text::views(v@), width, height, reach),
        r@.len() == width * height,
{
    let mut out: Vec<String> = Vec::new();
    let ghost goal = cropped(text::views(v@), width, height, reach);
    let mut row: u16 = 0;
    proof {
        lemma_crop(width, reach, 0, 0);
        assert(text::views(out@) =~= goal.take(0));
        assert(0 * width == 0);
    }
    while row < height
        invariant
            row <= height,
            height <= MESSAGE_ROWS,
            width <= reach,
            v@.len() == reach * height,
            goal == cropped(text::views(v@), width, height, reach),
            text::views(out@) == goal.take(row * width),
            0 <= row * width <= width * height,
        decreases height - row,
    {
        let mut column: u16 = 0;
        proof {
            assert(width * (row + 1) <= width * height) by (nonlinear_arith)
                requires
                    row < height,
                    0 <= width,
            ;
            assert(row * width == width * row) by (nonlinear_arith);
            assert((row + 1) * width == width * (row + 1)) by (nonlinear_arith);
            assert((row + 1) * width == row * width + width) by (nonlinear_arith);
        }
        while column < width
            invariant
                row < height,
                column <= width,
                height <= MESSAGE_ROWS,
                width <= reach,
                v@.len() == reach * height,
                goal == cropped(text::views(v@), width, height, reach),
                0 <= row * width,
                row * width + width <= width * height,
                text::views(out@) == goal.take(row * width + column),
            decreases width - column,
        {
            proof {
                lemma_crop(width, reach, row, column);
                assert(row * reach + column < reach * height) by (nonlinear_arith)
                    requires
                        row < height,
                        column < reach,
                        0 <= row,
                ;
                assert(row * reach <= 131070) by (nonlinear_arith)
                    requires
                        row < 2,
                        reach <= 65535,
                ;
            }
            let ghost before = text::views(out@);
            let at: usize = ((row as u32) * (reach as u32) + (column as u32)) as usize;
            out.push(v[at].clone());
            proof {
                let i = row * width + column;
                assert(goal[i] == text::views(v@)[at as int]);
                assert(text::views(out@) =~= before.push(goal[i]));
                assert(goal.take(i + 1) =~= before.push(goal[i]));
            }
            column += 1;
        }
        row += 1;
    }
    proof {
        assert(height * width == width * height) by (nonlinear_arith);
        assert(goal.take(width * height) =~= goal);
        assert(text::views(out@).len() == out@.len());
    }
    out
}

proof fn lemma_crop(width: u16, reach: u16, row: u16, column: u16)
    ensures
        column < width ==> (row * width + column) / (width as int) == row && (row * width + column)
            % (width as int) == column,
{
    if column < width {
        vstd::arithmetic::div_mod::lemma_fundamental_div_mod_converse(
            row * width + column,
            width as int,
            row as int,
            column as int,
        );
    }
}

/// The frame that tells of a failure. The cells above its last rows stay as they were, if they were
/// drawn for the same conversation, by the same renderer and for the same size.
pub fn failure_frame(
    identity: Identity,
    width: u16,
    height: u16,
    previous: Option<&Frame>,
    diagnostic: &str,
) -> (r: Frame)
    requires
        previous matches Some(f) ==> f.wf(),
        drawable(message(diagnostic@), width),
    ensures
        r.wf(),
        r.is_inert(),
        r.identity == identity,
        r.width == width,
        r.height == height,
        cells_of(r.cells@) == failed_cells(
            identity,
            width,
            height,
            match previous {
                Some(f) => Some(*f),
                None => None,
            },
            told_cells(message(diagnostic@), width, message_rows(height)),
        ),
{
    let told = cat3("Renderer: ", terminal_text(diagnostic).as_str(), " · retrying");
    let rows: u16 = if height < MESSAGE_ROWS {
        height
    } else {
        MESSAGE_ROWS
    };
    let reach: u16 = if width <= 16383 {
        4 * width
    } else {
        u16::MAX
    };
    let symbols = crop(draw(told.as_str(), width, rows, reach), width, rows, reach);
    frame_with(identity, width, height, previous, symbols)
}

/// A renderer that was replaced leaves none of its cells.
pub proof fn law_no_relabelling(
    identity: Identity,
    width: u16,
    height: u16,
    previous: Frame,
    symbols: Seq<Seq<char>>,
)
    requires
        previous.identity.presentation != identity.presentation,
    ensures
        failed_cells(identity, width, height, Some(previous), symbols) == failed_cells(
            identity,
            width,
            height,
            None,
            symbols,
        ),
{
    assert(failed_cells(identity, width, height, Some(previous), symbols) =~= failed_cells(
        identity,
        width,
        height,
        None,
        symbols,
    ));
}

/// After a failure nothing is drawn for a while, and then again without anything happening.
pub proof fn law_retries_without_spinning(r: Recovery, failed: u64, now: u64)
    requires
        r.deadline == Some((failed + RETRY_MILLISECONDS) as u64),
        failed + RETRY_MILLISECONDS <= u64::MAX,
    ensures
        r.open_at(now) <==> now >= failed + RETRY_MILLISECONDS,
{
}

/// A failure is told in the last two rows; above them the frame stays as it was where it was drawn
/// for the same conversation, renderer and size, and is empty otherwise.
pub proof fn law_failure_rows(
    identity: Identity,
    width: u16,
    height: u16,
    previous: Frame,
    symbols: Seq<Seq<char>>,
    i: int,
)
    requires
        height >= 2,
        0 <= i < width * height,
    ensures
        ({
            let cells = failed_cells(identity, width, height, Some(previous), symbols);
            let kept = width * (height - 2);
            let same = previous.identity.attachment == identity.attachment
                && previous.identity.presentation == identity.presentation && previous.width == width
                && previous.height == height;
            &&& cells.len() == width * height
            &&& i < kept && same ==> cells[i] == previous.cells@[i]@
            &&& i < kept && !same ==> cells[i].symbol == " "@
            &&& i >= kept ==> cells[i].symbol == symbols[i - kept]
        }),
        message_rows(height) == 2,
        message_rows(0) == 0 && message_rows(1) == 1,
{
    assert(width * (height - 2) <= width * height) by (nonlinear_arith)
        requires
            height >= 2,
    ;
}

/// What is told of a failure names the renderer, shows the diagnosis and says that it goes on.
pub proof fn law_failure_message(diagnostic: Seq<char>)
    ensures
        message(diagnostic) == "Renderer: "@ + display::shown_text(diagnostic) + " · retrying"@,
{
}

/// Of each row of the wider buffer the first columns are kept, in their place.
pub proof fn law_cropped(
    v: Seq<Seq<char>>,
    width: u16,
    height: u16,
    reach: u16,
    row: int,
    column: int,
)
    requires
        0 <= row < height,
        0 <= column < width,
    ensures
        cropped(v, width, height, reach)[row * width + column] == v[row * reach + column],
{
    let i = row * width + column;
    assert(0 <= i < width * height && i / (width as int) == row && i % (width as int) == column)
        by (nonlinear_arith)
        requires
            i == row * width + column,
            0 <= row < height,
            0 <= column < width,
    ;
}

/// A wrapped text is drawn into four times the columns, as far as the screen goes.
pub proof fn law_reach(width: u16)
    ensures
        4 * width <= 65535 ==> reach_of(width) == 4 * width,
        4 * width > 65535 ==> reach_of(width) == 65535,
{
}

} // verus!
