//! What an application screen shows, apart from how it is drawn.
use vstd::prelude::*;
use vstd::string::*;
use crate::editor::Editor;
use crate::text;
use crate::text::same;

verus! {

/// The part of a line that can be edited.
#[derive(Debug)]
pub struct Draft {
    pub text: String,
    /// The byte offset of the cursor.
    pub cursor: usize,
}

/// What a [`Draft`] says.
#[verifier::ext_equal]
pub struct DraftView {
    pub text: Seq<char>,
    pub cursor: int,
}

impl View for Draft {
    type V = DraftView;

    open spec fn view(&self) -> DraftView {
        DraftView { text: self.text@, cursor: self.cursor as int }
    }
}

impl Draft {
    /// What an editor shows.
    pub fn capture(editor: &Editor) -> (r: Draft)
        ensures
            r@ == (DraftView { text: editor@.text, cursor: editor@.cursor }),
    {
        Draft { text: editor.text().to_owned(), cursor: editor.cursor() }
    }
}

/// The text of an optional string.
pub open spec fn optional(s: Option<String>) -> Option<Seq<char>> {
    match s {
        Some(t) => Some(t@),
        None => None,
    }
}

/// Copies an optional string.
pub fn clone_optional(s: &Option<String>) -> (r: Option<String>)
    ensures
        optional(r) == optional(*s),
{
    match s {
        Some(t) => Some(t.clone()),
        None => None,
    }
}

/// Whether two optional strings hold the same text.
pub fn same_optional(a: &Option<String>, b: &Option<String>) -> (r: bool)
    ensures
        r == (optional(*a) == optional(*b)),
{
    match (a, b) {
        (Some(x), Some(y)) => same(x.as_str(), y.as_str()),
        (None, None) => true,
        _ => false,
    }
}

/// An application screen.
#[derive(Debug)]
pub struct Scene {
    pub revision: u64,
    pub title: String,
    pub explanation: String,
    pub status: String,
    pub items: Vec<String>,
    pub selected: usize,
    pub detail: Option<String>,
    pub detail_offset: usize,
    pub field: Option<String>,
    pub input: Draft,
    pub hint: String,
    pub progress: Option<String>,
    pub receipts: Vec<String>,
    pub composer_prefix: Option<String>,
}

/// What a [`Scene`] says.
#[verifier::ext_equal]
pub struct SceneView {
    pub revision: u64,
    pub title: Seq<char>,
    pub explanation: Seq<char>,
    pub status: Seq<char>,
    pub items: Seq<Seq<char>>,
    pub selected: usize,
    pub detail: Option<Seq<char>>,
    pub detail_offset: usize,
    pub field: Option<Seq<char>>,
    pub input: DraftView,
    pub hint: Seq<char>,
    pub progress: Option<Seq<char>>,
    pub receipts: Seq<Seq<char>>,
    pub composer_prefix: Option<Seq<char>>,
}

impl View for Scene {
    type V = SceneView;

    open spec fn view(&self) -> SceneView {
        SceneView {
            revision: self.revision,
            title: self.title@,
            explanation: self.explanation@,
            status: self.status@,
            items: text::views(self.items@),
            selected: self.selected,
            detail: optional(self.detail),
            detail_offset: self.detail_offset,
            field: optional(self.field),
            input: self.input@,
            hint: self.hint@,
            progress: optional(self.progress),
            receipts: text::views(self.receipts@),
            composer_prefix: optional(self.composer_prefix),
        }
    }
}

/// A rectangle of terminal cells.
#[derive(Clone, Copy, Debug, PartialEq, Eq, Structural)]
pub struct Area {
    pub x: u16,
    pub y: u16,
    pub width: u16,
    pub height: u16,
}

/// Where so many cells from a cell end.
pub open spec fn end_of(start: u16, length: u16) -> int {
    if start + length > u16::MAX {
        u16::MAX as int
    } else {
        start + length
    }
}

impl Area {
    /// Whether a cell lies in the rectangle.
    pub open spec fn covers(self, column: int, row: int) -> bool {
        self.x <= column < end_of(self.x, self.width) && self.y <= row < end_of(
            self.y,
            self.height,
        )
    }

    pub fn contains(&self, column: u16, row: u16) -> (r: bool)
        ensures
            r == self.covers(column as int, row as int),
    {
        self.x <= column && column < self.x.saturating_add(self.width) && self.y <= row && row
            < self.y.saturating_add(self.height)
    }
}

/// What the last frame showed, as far as a click on it matters.
#[derive(Debug)]
pub struct Shown {
    /// The revision of the choices that were shown.
    pub choice_revision: u64,
    /// Where the whole screen was.
    pub area: Area,
    /// Where the choices were.
    pub choices_area: Area,
    /// The row of each choice that was shown, and its index.
    pub choices: Vec<(u16, usize)>,
    /// How far the content can be scrolled.
    pub scroll_max: usize,
    /// The revision, place and first index of a completion list.
    pub completion: Option<(u64, Area, usize)>,
}

impl Area {
    /// No place at all.
    pub open spec fn is_nothing(self) -> bool {
        self.x == 0 && self.y == 0 && self.width == 0 && self.height == 0
    }
}

impl Shown {
    /// Nothing was shown that can be clicked or scrolled.
    pub open spec fn is_nothing(self) -> bool {
        &&& self.choice_revision == 0
        &&& self.area.is_nothing()
        &&& self.choices_area.is_nothing()
        &&& self.choices@.len() == 0
        &&& self.scroll_max == 0
        &&& self.completion is None
    }

    /// What is shown before the first frame, and of one that tells of a failure.
    pub fn nothing() -> (r: Shown)
        ensures
            r.is_nothing(),
    {
        let area = Area { x: 0, y: 0, width: 0, height: 0 };
        Shown {
            choice_revision: 0,
            area,
            choices_area: area,
            choices: Vec::new(),
            scroll_max: 0,
            completion: None,
        }
    }
}

impl Shown {
    /// The choice in a row of the screen, the first listed where several are.
    pub open spec fn choice(self, column: int, row: int) -> Option<usize> {
        if self.choices_area.covers(column, row) {
            choice_in(self.choices@, row)
        } else {
            None
        }
    }

    pub fn choice_at(&self, column: u16, row: u16) -> (r: Option<usize>)
        ensures
            r == self.choice(column as int, row as int),
    {
        if !self.choices_area.contains(column, row) {
            return None;
        }
        let mut i: usize = 0;
        proof {
            assert(self.choices@.skip(0) =~= self.choices@);
        }
        while i < self.choices.len()
            invariant
                i <= self.choices@.len(),
                self.choices_area.covers(column as int, row as int),
                choice_in(self.choices@.skip(i as int), row as int) == choice_in(
                    self.choices@,
                    row as int,
                ),
            decreases self.choices@.len() - i,
        {
            if self.choices[i].0 == row {
                return Some(self.choices[i].1);
            }
            proof {
                assert(self.choices@.skip(i as int).drop_first() =~= self.choices@.skip(
                    i as int + 1,
                ));
            }
            i += 1;
        }
        None
    }
}

/// The first choice that stands in a row.
pub open spec fn choice_in(choices: Seq<(u16, usize)>, row: int) -> Option<usize>
    decreases choices.len(),
{
    if choices.len() == 0 {
        None
    } else if choices[0].0 == row {
        Some(choices[0].1)
    } else {
        choice_in(choices.drop_first(), row)
    }
}

/// One step down in a list, which stops at its end.
pub open spec fn step_down(selected: int, len: int) -> int {
    let last = if len > 0 {
        len - 1
    } else {
        0
    };
    if selected + 1 <= last {
        selected + 1
    } else {
        last
    }
}

/// One step up in a list, which stops at its start.
pub open spec fn step_up(selected: int) -> int {
    if selected > 0 {
        selected - 1
    } else {
        0
    }
}

pub fn down(selected: usize, len: usize) -> (r: usize)
    ensures
        r == step_down(selected as int, len as int),
{
    let last: usize = len.saturating_sub(1);
    if selected < last {
        selected + 1
    } else {
        last
    }
}

pub fn up(selected: usize) -> (r: usize)
    ensures
        r == step_up(selected as int),
{
    selected.saturating_sub(1)
}

/// One step up and down in a list: it moves by one, stops at the ends, and where it moved the other
/// step leads back.
pub proof fn law_steps(selected: int, len: int)
    requires
        0 <= selected < len,
    ensures
        selected + 1 < len ==> step_down(selected, len) == selected + 1 && step_up(
            step_down(selected, len),
        ) == selected,
        selected + 1 == len ==> step_down(selected, len) == selected,
        selected > 0 ==> step_up(selected) == selected - 1 && step_down(step_up(selected), len)
            == selected,
        step_up(0) == 0,
        0 <= step_up(selected) < len && 0 <= step_down(selected, len) < len,
        step_down(selected, 0) == 0,
{
}

/// A rectangle covers its cells: as many columns as it is wide and rows as it is high, from its
/// corner on, as far as the screen goes.
pub proof fn law_covers(area: Area, column: int, row: int)
    requires
        area.x + area.width <= u16::MAX,
        area.y + area.height <= u16::MAX,
    ensures
        area.covers(column, row) <==> area.x <= column < area.x + area.width && area.y <= row < area.y
            + area.height,
{
}

/// A choice is found in the row that it stands in, the first listed where several do, and only
/// inside the area of the choices.
pub proof fn law_choice(s: Shown, column: int, row: int)
    ensures
        s.choice(column, row) matches Some(index) ==> s.choices_area.covers(column, row) && exists|
            i: int,
        |
            0 <= i < s.choices@.len() && #[trigger] s.choices@[i] == (row as u16, index)
                && s.choices@[i].0 == row,
        s.choice(column, row) is None ==> !s.choices_area.covers(column, row) || forall|i: int|
            0 <= i < s.choices@.len() ==> (#[trigger] s.choices@[i]).0 != row,
{
    lemma_choice_in(s.choices@, row);
}

proof fn lemma_choice_in(v: Seq<(u16, usize)>, row: int)
    ensures
        match choice_in(v, row) {
            Some(index) => exists|i: int|
                0 <= i < v.len() && #[trigger] v[i] == (row as u16, index) && v[i].0 == row,
            None => forall|i: int| 0 <= i < v.len() ==> (#[trigger] v[i]).0 != row,
        },
    decreases v.len(),
{
    if v.len() > 0 {
        if v[0].0 == row {
            assert(v[0] == (row as u16, v[0].1));
        } else {
            let rest = v.drop_first();
            lemma_choice_in(rest, row);
            match choice_in(rest, row) {
                Some(index) => {
                    let i = choose|i: int|
                        0 <= i < rest.len() && #[trigger] rest[i] == (row as u16, index)
                            && rest[i].0 == row;
                    assert(v[i + 1] == (row as u16, index));
                },
                None => {
                    assert forall|i: int| 0 <= i < v.len() implies (#[trigger] v[i]).0 != row by {
                        if i > 0 {
                            assert(rest[i - 1].0 != row);
                        }
                    }
                },
            }
        }
    }
}

} // verus!
