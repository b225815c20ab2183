//! A text editor over grapheme clusters, with bounded undo and redo.
use unicode_segmentation::UnicodeSegmentation;
use vstd::prelude::*;
use vstd::string::*;
use crate::journal;
use crate::journal::{Change, ChangeView, History, Journal, MAXIMUM_BYTES};
use crate::keys::{KeyCode, KeyEvent};
use crate::text;
use crate::text::{byte_len, char_len, characters, contains_char, same, slice, split};

verus! {

/// Bytes that an editor holds at most.
pub const MAX_TEXT: usize = 1048576;

/// Bytes that an editor and its history hold at most together.
pub const MAX_RETAINED: usize = MAX_TEXT + MAXIMUM_BYTES;

/// The byte offsets at which the extended grapheme clusters of a text begin.
pub uninterp spec fn grapheme_offsets(s: Seq<char>) -> Seq<usize>;

/// Offsets that cut a text into nonempty pieces at character boundaries, from its start.
pub open spec fn cuts(s: Seq<char>, offsets: Seq<usize>) -> bool {
    &&& s.len() == 0 ==> offsets.len() == 0
    &&& s.len() > 0 ==> offsets.len() > 0 && offsets[0] == 0
    &&& forall|i: int|
        0 <= i < offsets.len() ==> text::boundary(s, #[trigger] offsets[i] as int) && offsets[i]
            < text::size(s)
    &&& forall|i: int, j: int|
        0 <= i < j < offsets.len() ==> #[trigger] offsets[i] < #[trigger] offsets[j]
}

/// `UnicodeSegmentation::grapheme_indices` with extended clusters lists every cluster of a text
/// with the byte offset of its first character. The clusters are nonempty pieces of the text and
/// cover it in order, so the offsets begin at zero, increase, and are character boundaries.
#[verifier::external_body]
fn grapheme_starts(s: &str) -> (r: Vec<usize>)
    ensures
        r@ == grapheme_offsets(s@),
        cuts(s@, r@),
{
    s.grapheme_indices(true).map(|(offset, _)| offset).collect()
}

/// `String::capacity` is the number of bytes that a text has allocated, at least its length.
#[verifier::external_body]
fn capacity(s: &String) -> (n: usize)
    ensures
        n >= text::size(s@),
{
    s.capacity()
}

/// `String::shrink_to_fit` gives back unused space and keeps the text.
pub assume_specification[ String::shrink_to_fit ](s: &mut String)
    ensures
        final(s)@ == old(s)@,
;

/// Whether `part` stands in `s` at the byte offset `start`.
pub open spec fn occurs(s: Seq<char>, start: int, part: Seq<char>) -> bool {
    let k = text::fit(s, start) as int;
    &&& 0 <= start
    &&& text::boundary(s, start)
    &&& k + part.len() <= s.len()
    &&& s.subrange(k, k + part.len()) == part
}

/// The text with `removed`, which stands at the byte offset `start`, replaced by `value`.
pub open spec fn splice(s: Seq<char>, start: int, removed: Seq<char>, value: Seq<char>) -> Seq<
    char,
> {
    let k = text::fit(s, start) as int;
    s.take(k) + value + s.skip(k + removed.len())
}

/// Replacing a piece and putting it back gives the same text.
pub proof fn lemma_splice(s: Seq<char>, start: int, removed: Seq<char>, value: Seq<char>)
    requires
        occurs(s, start, removed),
    ensures
        occurs(splice(s, start, removed, value), start, value),
        splice(splice(s, start, removed, value), start, value, removed) == s,
        text::size(splice(s, start, removed, value)) == text::size(s) - text::size(removed)
            + text::size(value),
        start + text::size(value) <= text::size(splice(s, start, removed, value)),
        text::boundary(splice(s, start, removed, value), start + text::size(value)),
{
    let k: int = text::fit(s, start) as int;
    text::lemma_fit(s, start);
    let t = splice(s, start, removed, value);
    let head = s.take(k);
    let tail = s.skip(k + removed.len());
    assert(t.take(k) =~= head);
    text::lemma_fit_exact(t, k);
    assert(t.subrange(k, k + value.len()) =~= value);
    assert(t.skip(k + value.len()) =~= tail);
    assert(s =~= head + removed + tail);
    assert(splice(t, start, value, removed) =~= s);
    text::lemma_size_concat(head + removed, tail);
    text::lemma_size_concat(head, removed);
    text::lemma_size_concat(head + value, tail);
    text::lemma_size_concat(head, value);
    assert(t.take(k + value.len()) =~= head + value);
    text::lemma_fit_exact(t, k + value.len());
}

/// A change that can be done on a text: what it removes stands there, and both cursor positions
/// are boundaries.
pub open spec fn applicable(s: Seq<char>, c: ChangeView) -> bool {
    &&& occurs(s, c.start, c.removed)
    &&& 0 <= c.before
    &&& text::boundary(s, c.before)
    &&& 0 <= c.after
    &&& text::boundary(splice(s, c.start, c.removed, c.inserted), c.after)
}

/// Every undo step leads back to the text before it.
pub open spec fn undo_valid(s: Seq<char>, undo: Seq<ChangeView>) -> bool
    decreases undo.len(),
{
    undo.len() == 0 || {
        let c = undo.last();
        let before = splice(s, c.start, c.inserted, c.removed);
        &&& occurs(s, c.start, c.inserted)
        &&& applicable(before, c)
        &&& undo_valid(before, undo.drop_last())
    }
}

/// Every redo step can be done again.
pub open spec fn redo_valid(s: Seq<char>, redo: Seq<ChangeView>) -> bool
    decreases redo.len(),
{
    redo.len() == 0 || {
        let c = redo.last();
        &&& applicable(s, c)
        &&& redo_valid(splice(s, c.start, c.removed, c.inserted), redo.drop_last())
    }
}

pub open spec fn history_valid(s: Seq<char>, h: History) -> bool {
    undo_valid(s, h.undo) && redo_valid(s, h.redo)
}

proof fn lemma_undo_skip(s: Seq<char>, undo: Seq<ChangeView>, i: int)
    requires
        undo_valid(s, undo),
        0 <= i <= undo.len(),
    ensures
        undo_valid(s, undo.skip(i)),
    decreases undo.len(),
{
    if i < undo.len() {
        let c = undo.last();
        let before = splice(s, c.start, c.inserted, c.removed);
        lemma_undo_skip(before, undo.drop_last(), i);
        assert(undo.skip(i).drop_last() =~= undo.drop_last().skip(i));
        assert(undo.skip(i).last() == c);
    }
}

proof fn lemma_redo_skip(s: Seq<char>, redo: Seq<ChangeView>, i: int)
    requires
        redo_valid(s, redo),
        0 <= i <= redo.len(),
    ensures
        redo_valid(s, redo.skip(i)),
    decreases redo.len(),
{
    if i < redo.len() {
        let c = redo.last();
        lemma_redo_skip(splice(s, c.start, c.removed, c.inserted), redo.drop_last(), i);
        assert(redo.skip(i).drop_last() =~= redo.drop_last().skip(i));
        assert(redo.skip(i).last() == c);
    }
}

/// Forgetting distant steps keeps the rest valid.
proof fn lemma_trim_valid(s: Seq<char>, h: History, budget: int)
    requires
        history_valid(s, h),
        0 <= budget,
    ensures
        history_valid(s, h.trimmed(budget)),
{
    journal::law_trim(h, budget);
    let r = h.trimmed(budget);
    let (i, j) = choose|i: int, j: int|
        0 <= i <= h.undo.len() && 0 <= j <= h.redo.len() && (j > 0 ==> i == h.undo.len()) && r.undo
            == #[trigger] h.undo.skip(i) && r.redo == #[trigger] h.redo.skip(j);
    lemma_undo_skip(s, h.undo, i);
    lemma_redo_skip(s, h.redo, j);
}

/// What an editor holds.
#[verifier::ext_equal]
pub struct EditorView {
    pub text: Seq<char>,
    /// The byte offset of the cursor.
    pub cursor: int,
    pub limit: nat,
    pub retention: nat,
    pub history: History,
}

impl EditorView {
    /// An editor without text or history.
    pub open spec fn blank() -> EditorView {
        EditorView {
            text: seq![],
            cursor: 0,
            limit: MAX_TEXT as nat,
            retention: MAX_RETAINED as nat,
            history: History::empty(),
        }
    }

    /// A fresh editor over a text, with the cursor at its end.
    pub open spec fn over(text: Seq<char>, limit: nat) -> EditorView {
        EditorView { text, cursor: text::size(text) as int, limit, ..EditorView::blank() }
    }

    /// The cursor stands between two characters, and every step of the history can be taken.
    pub open spec fn valid(self) -> bool {
        &&& 0 <= self.cursor
        &&& text::boundary(self.text, self.cursor)
        &&& history_valid(self.text, self.history)
    }

    /// Bytes that the text may have.
    pub open spec fn room(self) -> nat {
        let a = if self.limit <= MAX_TEXT {
            self.limit
        } else {
            MAX_TEXT as nat
        };
        if a <= self.retention {
            a
        } else {
            self.retention
        }
    }

    /// The characters between two byte offsets.
    pub open spec fn between(self, from: int, to: int) -> Seq<char> {
        self.text.subrange(text::fit(self.text, from) as int, text::fit(self.text, to) as int)
    }
}

/// The first of the increasing `offsets` that is at least `at`, or else `end`.
pub open spec fn offset_from(offsets: Seq<usize>, at: int, end: int) -> int
    decreases offsets.len(),
{
    if offsets.len() == 0 {
        end
    } else if offsets[0] >= at {
        offsets[0] as int
    } else {
        offset_from(offsets.drop_first(), at, end)
    }
}

/// The start of the first grapheme cluster that does not begin before `at`, or the end.
pub open spec fn cluster_from(s: Seq<char>, at: int) -> int {
    offset_from(grapheme_offsets(s), at, text::size(s) as int)
}

/// The change that replaces the text between two byte offsets.
pub open spec fn change_of(v: EditorView, from: int, to: int, value: Seq<char>) -> ChangeView {
    let removed = v.between(from, to);
    ChangeView {
        start: from,
        removed,
        inserted: value,
        before: v.cursor,
        after: cluster_from(splice(v.text, from, removed, value), from + text::size(value)),
    }
}

/// The bytes that a limit leaves for the history of a text that has `capacity` bytes allocated.
pub open spec fn left_of(limit: nat, capacity: nat) -> nat {
    if capacity <= limit {
        (limit - capacity) as nat
    } else {
        0
    }
}

/// `w` is `v` with the text between two byte offsets replaced. Nothing happens where the new
/// text is what stands there already. Otherwise the cursor stands behind the new text, at the
/// start of a grapheme cluster, the change can be undone, and nothing can be done again; the
/// history is cut to what fits beside the `capacity` bytes that the text then has allocated.
pub open spec fn edited_beside(
    v: EditorView,
    from: int,
    to: int,
    value: Seq<char>,
    w: EditorView,
    capacity: nat,
) -> bool {
    if v.between(from, to) == value {
        w == v
    } else {
        let c = change_of(v, from, to, value);
        let h = History { undo: v.history.undo.push(c), redo: seq![] };
        &&& w.text == splice(v.text, from, c.removed, value)
        &&& w.cursor == c.after
        &&& w.limit == v.limit
        &&& w.retention == v.retention
        &&& w.history == h.trimmed(left_of(w.retention, capacity) as int)
    }
}

/// An edit, whatever the text has allocated after it.
pub open spec fn edited(
    v: EditorView,
    from: int,
    to: int,
    value: Seq<char>,
    w: EditorView,
) -> bool {
    exists|capacity: nat|
        text::size(w.text) <= capacity && #[trigger] edited_beside(v, from, to, value, w, capacity)
}

/// `w` is `v` after one step back or, with `redo`, forward. The text then has `capacity` bytes
/// allocated.
pub open spec fn travelled_beside(v: EditorView, redo: bool, w: EditorView, capacity: nat) -> bool {
    if redo {
        if v.history.redo.len() == 0 {
            w == v
        } else {
            let c = v.history.redo.last();
            let h = History { undo: v.history.undo.push(c), redo: v.history.redo.drop_last() };
            &&& w.text == splice(v.text, c.start, c.removed, c.inserted)
            &&& w.cursor == c.after
            &&& w.limit == v.limit
            &&& w.retention == v.retention
            &&& w.history == h.trimmed(left_of(w.retention, capacity) as int)
        }
    } else {
        if v.history.undo.len() == 0 {
            w == v
        } else {
            let c = v.history.undo.last();
            let h = History { undo: v.history.undo.drop_last(), redo: v.history.redo.push(c) };
            &&& w.text == splice(v.text, c.start, c.inserted, c.removed)
            &&& w.cursor == c.before
            &&& w.limit == v.limit
            &&& w.retention == v.retention
            &&& w.history == h.trimmed(left_of(w.retention, capacity) as int)
        }
    }
}

/// A step, whatever the text has allocated after it.
pub open spec fn travelled(v: EditorView, redo: bool, w: EditorView) -> bool {
    exists|capacity: nat|
        text::size(w.text) <= capacity && #[trigger] travelled_beside(v, redo, w, capacity)
}

/// A text with every line break written as a newline.
pub open spec fn normalized(s: Seq<char>) -> Seq<char>
    decreases s.len(),
{
    if s.len() == 0 {
        seq![]
    } else if s[0] == '\r' {
        if s.len() > 1 && s[1] == '\n' {
            seq!['\n'] + normalized(s.skip(2))
        } else {
            seq!['\n'] + normalized(s.skip(1))
        }
    } else {
        seq![s[0]] + normalized(s.skip(1))
    }
}

/// Whether a text holds a character that an editor never takes.
pub open spec fn refused(s: Seq<char>) -> bool {
    s.contains('\0') || s.contains('\u{7f}')
}

/// What comes of inserting a text into the text at its cursor, which then has `capacity` bytes
/// allocated.
pub open spec fn inserted_beside(
    v: EditorView,
    value: Seq<char>,
    r: Result<(), &'static str>,
    w: EditorView,
    capacity: nat,
) -> bool {
    if refused(value) {
        &&& r matches Err(e)
        &&& e@ == "Input contains NUL or DEL; nothing was inserted"@
        &&& w == v
    } else if text::size(v.text) + text::size(normalized(value)) > v.room() {
        &&& r matches Err(e)
        &&& e@ == "Input exceeds its size limit; nothing was inserted"@
        &&& w == v
    } else {
        r is Ok && edited_beside(
            v,
            v.cursor,
            v.cursor,
            normalized(value),
            w,
            capacity,
        )
    }
}

/// What comes of replacing the whole text, which then has `capacity` bytes
/// allocated.
pub open spec fn replaced_beside(
    v: EditorView,
    value: Seq<char>,
    r: Result<(), &'static str>,
    w: EditorView,
    capacity: nat,
) -> bool {
    if refused(value) {
        &&& r matches Err(e)
        &&& e@ == "Input contains NUL or DEL; nothing was inserted"@
        &&& w == v
    } else if text::size(value) > v.room() {
        &&& r matches Err(e)
        &&& e@ == "Input exceeds its size limit; nothing was inserted"@
        &&& w == v
    } else {
        r is Ok && edited_beside(
            v,
            0,
            text::size(v.text) as int,
            value,
            w,
            capacity,
        )
    }
}

/// An insertion, whatever the text has allocated after it.
pub open spec fn inserted(
    v: EditorView,
    value: Seq<char>,
    r: Result<(), &'static str>,
    w: EditorView,
) -> bool {
    exists|capacity: nat|
        text::size(w.text) <= capacity && #[trigger] inserted_beside(v, value, r, w, capacity)
}

/// A replacement of the whole text, whatever it has allocated after it.
pub open spec fn replaced(
    v: EditorView,
    value: Seq<char>,
    r: Result<(), &'static str>,
    w: EditorView,
) -> bool {
    exists|capacity: nat|
        text::size(w.text) <= capacity && #[trigger] replaced_beside(v, value, r, w, capacity)
}

/// An edit keeps the editor valid.
pub proof fn lemma_edited_valid(
    v: EditorView,
    from: int,
    to: int,
    value: Seq<char>,
    w: EditorView,
)
    requires
        v.valid(),
        0 <= from <= to,
        text::boundary(v.text, from),
        text::boundary(v.text, to),
        edited(v, from, to, value, w),
        cuts(w.text, grapheme_offsets(w.text)),
    ensures
        w.valid(),
{
    if v.between(from, to) != value {
        let c = change_of(v, from, to, value);
        lemma_between(v.text, from, to);
        lemma_splice(v.text, from, c.removed, value);
        lemma_offset_from(w.text, grapheme_offsets(w.text), from + text::size(value));
        let h = History { undo: v.history.undo.push(c), redo: seq![] };
        assert(h.undo.last() == c);
        assert(h.undo.drop_last() =~= v.history.undo);
        assert(history_valid(w.text, h));
        let capacity = choose|capacity: nat|
            text::size(w.text) <= capacity && #[trigger] edited_beside(
                v,
                from,
                to,
                value,
                w,
                capacity,
            );
        lemma_trim_valid(w.text, h, left_of(w.retention, capacity) as int);
    }
}

/// A step keeps the editor valid.
pub proof fn lemma_travelled_valid(v: EditorView, redo: bool, w: EditorView)
    requires
        v.valid(),
        travelled(v, redo, w),
    ensures
        w.valid(),
{
    if redo && v.history.redo.len() > 0 {
        let c = v.history.redo.last();
        let h = History { undo: v.history.undo.push(c), redo: v.history.redo.drop_last() };
        lemma_splice(v.text, c.start, c.removed, c.inserted);
        assert(h.undo.last() == c);
        assert(h.undo.drop_last() =~= v.history.undo);
        let capacity = choose|capacity: nat|
            text::size(w.text) <= capacity && #[trigger] travelled_beside(v, redo, w, capacity);
        lemma_trim_valid(w.text, h, left_of(w.retention, capacity) as int);
    } else if !redo && v.history.undo.len() > 0 {
        let c = v.history.undo.last();
        let h = History { undo: v.history.undo.drop_last(), redo: v.history.redo.push(c) };
        lemma_splice(v.text, c.start, c.inserted, c.removed);
        assert(h.redo.last() == c);
        assert(h.redo.drop_last() =~= v.history.redo);
        let capacity = choose|capacity: nat|
            text::size(w.text) <= capacity && #[trigger] travelled_beside(v, redo, w, capacity);
        lemma_trim_valid(w.text, h, left_of(w.retention, capacity) as int);
    }
}

proof fn lemma_between(s: Seq<char>, from: int, to: int)
    requires
        0 <= from <= to,
        text::boundary(s, from),
        text::boundary(s, to),
    ensures
        text::fit(s, from) <= text::fit(s, to) <= s.len(),
        occurs(s, from, s.subrange(text::fit(s, from) as int, text::fit(s, to) as int)),
        text::size(s.subrange(text::fit(s, from) as int, text::fit(s, to) as int)) == to - from,
        to <= text::size(s),
{
    let i: int = text::fit(s, from) as int;
    let j: int = text::fit(s, to) as int;
    text::lemma_boundary_split(s, from);
    text::lemma_boundary_split(s, to);
    if j < i {
        text::lemma_size_take_monotone(s, j, i);
    }
    assert(s.take(j) =~= s.take(i) + s.subrange(i, j));
    text::lemma_size_concat(s.take(i), s.subrange(i, j));
}

proof fn lemma_offset_from(s: Seq<char>, offsets: Seq<usize>, at: int)
    requires
        forall|i: int|
            0 <= i < offsets.len() ==> text::boundary(s, #[trigger] offsets[i] as int) && offsets[i]
                < text::size(s),
    ensures
        0 <= offset_from(offsets, at, text::size(s) as int) <= text::size(s),
        text::boundary(s, offset_from(offsets, at, text::size(s) as int)),
    decreases offsets.len(),
{
    text::lemma_boundary_ends(s);
    if offsets.len() > 0 && offsets[0] < at {
        let rest = offsets.drop_first();
        assert forall|i: int| 0 <= i < rest.len() implies text::boundary(
            s,
            #[trigger] rest[i] as int,
        ) && rest[i] < text::size(s) by {
            assert(rest[i] == offsets[i + 1]);
        }
        lemma_offset_from(s, rest, at);
    }
}

/// The number of characters up to and with the last newline.
pub open spec fn line_from(s: Seq<char>) -> nat
    decreases s.len(),
{
    if s.len() == 0 {
        0
    } else if s.last() == '\n' {
        s.len()
    } else {
        line_from(s.drop_last())
    }
}

/// The number of characters before the first newline.
pub open spec fn line_len(s: Seq<char>) -> nat
    decreases s.len(),
{
    if s.len() == 0 || s[0] == '\n' {
        0
    } else {
        1 + line_len(s.drop_first())
    }
}

/// The text before a byte offset.
pub open spec fn head(s: Seq<char>, at: int) -> Seq<char> {
    s.take(text::fit(s, at) as int)
}

/// The text from a byte offset on.
pub open spec fn tail(s: Seq<char>, at: int) -> Seq<char> {
    s.skip(text::fit(s, at) as int)
}

/// The byte offset at which the line around `at` begins.
pub open spec fn line_start(s: Seq<char>, at: int) -> int {
    text::size(s.take(line_from(head(s, at)) as int)) as int
}

/// The byte offset at which the line around `at` ends.
pub open spec fn line_end(s: Seq<char>, at: int) -> int {
    at + text::size(tail(s, at).take(line_len(tail(s, at)) as int))
}

/// The start of the grapheme cluster before a byte offset.
pub open spec fn cluster_before(s: Seq<char>, at: int) -> int {
    let g = grapheme_offsets(head(s, at));
    if g.len() == 0 {
        0
    } else {
        g.last() as int
    }
}

/// The end of the grapheme cluster that begins at a byte offset.
pub open spec fn cluster_after(s: Seq<char>, at: int) -> int {
    let g = grapheme_offsets(tail(s, at));
    if g.len() > 1 {
        at + g[1]
    } else {
        text::size(s) as int
    }
}

/// The offset of a grapheme column in the line between two byte offsets, or the line's end.
pub open spec fn column_offset(v: EditorView, from: int, to: int, column: int) -> int {
    let g = grapheme_offsets(v.between(from, to));
    if column < g.len() {
        from + g[column]
    } else {
        to
    }
}

/// Grapheme clusters between the start of the cursor's line and the cursor.
pub open spec fn column(v: EditorView) -> int {
    grapheme_offsets(v.between(line_start(v.text, v.cursor), v.cursor)).len() as int
}

/// The cursor one line up, in the same grapheme column where the line is long enough.
pub open spec fn line_above(v: EditorView) -> int {
    let start = line_start(v.text, v.cursor);
    if start == 0 {
        v.cursor
    } else {
        column_offset(v, line_start(v.text, start - 1), start - 1, column(v))
    }
}

/// The cursor one line down, in the same grapheme column where the line is long enough.
pub open spec fn line_below(v: EditorView) -> int {
    let end = line_end(v.text, v.cursor);
    if end == text::size(v.text) {
        v.cursor
    } else {
        column_offset(v, end + 1, line_end(v.text, end + 1), column(v))
    }
}

/// What a key does to an editor, whose text then has `capacity` bytes allocated.
pub open spec fn pressed_beside(
    v: EditorView,
    key: KeyEvent,
    r: Result<(), &'static str>,
    w: EditorView,
    capacity: nat,
) -> bool {
    let at = |cursor: int| r is Ok && w == (EditorView { cursor, ..v });
    match key.code {
        KeyCode::Char(c) => if (c == 'z' || c == 'Z') && (key.control || key.alt) {
            r is Ok && travelled_beside(v, key.alt || key.shift, w, capacity)
        } else if key.control {
            if c == 'j' {
                inserted_beside(v, seq!['\n'], r, w, capacity)
            } else if c == 'a' {
                at(0)
            } else if c == 'e' {
                at(text::size(v.text) as int)
            } else if c == 'u' {
                r is Ok && edited_beside(v, 0, v.cursor, seq![], w, capacity)
            } else {
                at(v.cursor)
            }
        } else if key.alt {
            at(v.cursor)
        } else {
            inserted_beside(v, seq![c], r, w, capacity)
        },
        KeyCode::Enter => if key.shift {
            inserted_beside(v, seq!['\n'], r, w, capacity)
        } else {
            at(v.cursor)
        },
        KeyCode::Left => at(cluster_before(v.text, v.cursor)),
        KeyCode::Right => at(cluster_after(v.text, v.cursor)),
        KeyCode::Up => at(line_above(v)),
        KeyCode::Down => at(line_below(v)),
        KeyCode::Home => at(line_start(v.text, v.cursor)),
        KeyCode::End => at(line_end(v.text, v.cursor)),
        KeyCode::Backspace => r is Ok && edited_beside(
            v,
            cluster_before(v.text, v.cursor),
            v.cursor,
            seq![],
            w,
            capacity,
        ),
        KeyCode::Delete => r is Ok && edited_beside(
            v,
            v.cursor,
            cluster_after(v.text, v.cursor),
            seq![],
            w,
            capacity,
        ),
        _ => at(v.cursor),
    }
}

/// What a key does, whatever the text has allocated after it.
pub open spec fn pressed(
    v: EditorView,
    key: KeyEvent,
    r: Result<(), &'static str>,
    w: EditorView,
) -> bool {
    exists|capacity: nat|
        text::size(w.text) <= capacity && #[trigger] pressed_beside(v, key, r, w, capacity)
}

proof fn lemma_line_from(s: Seq<char>)
    ensures
        line_from(s) <= s.len(),
        line_from(s) > 0 ==> s[line_from(s) - 1] == '\n',
    decreases s.len(),
{
    if s.len() > 0 && s.last() != '\n' {
        lemma_line_from(s.drop_last());
    }
}

proof fn lemma_line_len(s: Seq<char>)
    ensures
        line_len(s) <= s.len(),
        line_len(s) < s.len() ==> s[line_len(s) as int] == '\n',
        forall|i: int| 0 <= i < line_len(s) ==> s[i] != '\n',
    decreases s.len(),
{
    if s.len() > 0 && s[0] != '\n' {
        let t = s.drop_first();
        lemma_line_len(t);
        assert forall|i: int| 0 <= i < line_len(s) implies s[i] != '\n' by {
            if i > 0 {
                assert(s[i] == t[i - 1]);
            }
        }
    }
}

/// Finds where the line around `at` begins.
fn find_line_start(s: &str, at: usize) -> (r: usize)
    requires
        text::boundary(s@, at as int),
    ensures
        r == line_start(s@, at as int),
        r <= at,
        text::boundary(s@, r as int),
        r > 0 ==> text::boundary(s@, r - 1),
{
    let (before, _) = split(s, at);
    let total: usize = byte_len(before);
    let mut offset: usize = 0;
    let mut start: usize = 0;
    proof {
        assert(before@.take(0) =~= Seq::<char>::empty());
    }
    for c in it: before.chars()
        invariant
            it.seq() == before@,
            total == text::size(before@),
            offset == text::size(before@.take(it.index() as int)),
            start == text::size(before@.take(line_from(before@.take(it.index() as int)) as int)),
    {
        proof {
            let i: int = it.index() as int;
            assert(before@.take(i + 1) =~= before@.take(i).push(c));
            assert(before@.take(i + 1).drop_last() =~= before@.take(i));
            text::lemma_size_push(before@.take(i), c);
            text::lemma_size_split(before@, i + 1);
        }
        offset += char_len(c);
        if c == '\n' {
            start = offset;
        }
    }
    proof {
        let k: int = line_from(before@) as int;
        assert(before@.take(before@.len() as int) =~= before@);
        lemma_line_from(before@);
        assert(before@.take(k) =~= s@.take(k));
        text::lemma_fit_exact(s@, k);
        text::lemma_size_take_monotone(before@, k, before@.len() as int);
        if k > 0 {
            assert(s@.take(k) =~= s@.take(k - 1).push('\n'));
            text::lemma_size_push(s@.take(k - 1), '\n');
            text::lemma_fit_exact(s@, k - 1);
        }
    }
    start
}

/// Finds where the line around `at` ends.
fn find_line_end(s: &str, at: usize) -> (r: usize)
    requires
        text::boundary(s@, at as int),
    ensures
        r == line_end(s@, at as int),
        at <= r <= text::size(s@),
        text::boundary(s@, r as int),
        r < text::size(s@) ==> text::boundary(s@, r + 1),
{
    let (before, after) = split(s, at);
    let total: usize = byte_len(s);
    let mut offset: usize = at;
    proof {
        assert(after@.take(0) =~= Seq::<char>::empty());
        text::lemma_size_concat(before@, after@);
    }
    for c in it: after.chars()
        invariant
            it.seq() == after@,
            total == text::size(s@),
            s@ == before@ + after@,
            text::size(before@) == at,
            total == at + text::size(after@),
            before@ == head(s@, at as int),
            after@ == tail(s@, at as int),
            offset == at + text::size(after@.take(it.index() as int)),
            forall|j: int| 0 <= j < it.index() ==> after@[j] != '\n',
    {
        if c == '\n' {
            proof {
                let i: int = it.index() as int;
                lemma_line_len(after@);
                assert(line_len(after@) == i);
                lemma_line_end(before@, after@, i);
                assert(after@.take(i + 1) =~= after@.take(i).push(c));
                text::lemma_size_push(after@.take(i), c);
                lemma_line_end(before@, after@, i + 1);
            }
            return offset;
        }
        proof {
            let i: int = it.index() as int;
            assert(after@.take(i + 1) =~= after@.take(i).push(c));
            text::lemma_size_push(after@.take(i), c);
            text::lemma_size_split(after@, i + 1);
        }
        offset += char_len(c);
    }
    proof {
        let n: int = after@.len() as int;
        lemma_line_len(after@);
        assert(after@.take(n) =~= after@);
        lemma_line_end(before@, after@, n);
    }
    offset
}

proof fn lemma_line_end(a: Seq<char>, b: Seq<char>, i: int)
    requires
        0 <= i <= b.len(),
    ensures
        text::boundary(a + b, (text::size(a) + text::size(b.take(i))) as int),
        text::size(a) + text::size(b.take(i)) <= text::size(a + b),
{
    let s = a + b;
    assert(s.take(a.len() + i) =~= a + b.take(i));
    text::lemma_size_concat(a, b.take(i));
    text::lemma_fit_exact(s, a.len() + i);
    text::lemma_size_split(s, a.len() + i);
}

/// A boundary of a part of a text is one of the text.
proof fn lemma_inner_boundary(s: Seq<char>, from: int, to: int, at: int)
    requires
        0 <= from <= to,
        text::boundary(s, from),
        text::boundary(s, to),
        0 <= at,
        text::boundary(
            s.subrange(text::fit(s, from) as int, text::fit(s, to) as int),
            at,
        ),
    ensures
        text::boundary(s, from + at),
        from + at <= to,
{
    let i: int = text::fit(s, from) as int;
    let j: int = text::fit(s, to) as int;
    lemma_between(s, from, to);
    let part = s.subrange(i, j);
    text::lemma_boundary_split(part, at);
    let k: int = text::fit(part, at) as int;
    assert(s.take(i + k) =~= s.take(i) + part.take(k));
    text::lemma_size_concat(s.take(i), part.take(k));
    text::lemma_fit_exact(s, i + k);
}

fn normalize(value: &str) -> (r: String)
    ensures
        r@ == normalized(value@),
{
    let v = characters(value);
    let n: usize = v.len();
    let mut out = String::new();
    let mut i: usize = 0;
    proof {
        assert(value@.skip(0) =~= value@);
        assert(out@ + normalized(value@) =~= normalized(value@));
    }
    while i < n
        invariant
            n == v@.len(),
            v@ == value@,
            i <= n,
            out@ + normalized(value@.skip(i as int)) == normalized(value@),
        decreases n - i,
    {
        let c: char = v[i];
        let ghost rest = value@.skip(i as int);
        let ghost done = out@;
        let step: usize = if c == '\r' && n - i > 1 && v[i + 1] == '\n' {
            2
        } else {
            1
        };
        let shown: char = if c == '\r' {
            '\n'
        } else {
            c
        };
        out.push(shown);
        proof {
            assert(rest.skip(step as int) =~= value@.skip(i + step));
            assert(normalized(rest) == seq![shown] + normalized(rest.skip(step as int)));
            assert(done.push(shown) + normalized(rest.skip(step as int)) =~= done + (seq![shown]
                + normalized(rest.skip(step as int))));
        }
        i += step;
    }
    proof {
        assert(value@.skip(n as int) =~= Seq::<char>::empty());
        assert(out@ + normalized(value@.skip(n as int)) =~= out@);
    }
    out
}

/// Finds the first grapheme cluster that does not begin before `at`.
fn find_cluster(s: &str, at: usize) -> (r: usize)
    ensures
        r == cluster_from(s@, at as int),
        cuts(s@, grapheme_offsets(s@)),
{
    let starts = grapheme_starts(s);
    let end: usize = byte_len(s);
    let mut i: usize = 0;
    proof {
        assert(starts@.skip(0) =~= starts@);
    }
    while i < starts.len()
        invariant
            i <= starts@.len(),
            starts@ == grapheme_offsets(s@),
            end == text::size(s@),
            cuts(s@, grapheme_offsets(s@)),
            offset_from(starts@.skip(i as int), at as int, end as int) == cluster_from(
                s@,
                at as int,
            ),
        decreases starts@.len() - i,
    {
        if starts[i] >= at {
            return starts[i];
        }
        proof {
            assert(starts@.skip(i as int).drop_first() =~= starts@.skip(i as int + 1));
        }
        i += 1;
    }
    end
}

/// The bytes that a limit leaves for the history of a text that has `capacity` bytes allocated.
pub fn left(limit: usize, capacity: usize) -> (n: usize)
    ensures
        n == left_of(limit as nat, capacity as nat),
        n == (if capacity <= limit { limit - capacity } else { 0 }),
{
    limit.saturating_sub(capacity)
}

/// A text under edit, its cursor and its history.
#[derive(Debug)]
pub struct Editor {
    text: String,
    cursor: usize,
    limit: usize,
    retention_limit: usize,
    journal: Journal,
    /// The bytes that the text has allocated.
    reserved: usize,
}

impl View for Editor {
    type V = EditorView;

    closed spec fn view(&self) -> EditorView {
        EditorView {
            text: self.text@,
            cursor: self.cursor as int,
            limit: self.limit as nat,
            retention: self.retention_limit as nat,
            history: self.journal@,
        }
    }
}

impl Default for Editor {
    fn default() -> (r: Self)
        ensures
            r.wf(),
            r.within(),
            r@ == EditorView::blank(),
    {
        let text = String::new();
        let reserved: usize = capacity(&text);
        let r = Editor {
            text,
            cursor: 0,
            limit: MAX_TEXT,
            retention_limit: MAX_RETAINED,
            journal: Journal::new(),
            reserved,
        };
        proof {
            text::lemma_boundary_ends(r.text@);
            assert(r@ =~= EditorView::blank());
        }
        r
    }
}

impl Editor {
    /// The editor is valid and its journal is within its limits.
    pub closed spec fn wf(&self) -> bool {
        &&& self@.valid()
        &&& self.journal.wf()
        &&& self.retention_limit <= MAX_RETAINED
        &&& text::size(self.text@) <= self.reserved
    }

    /// The bytes that the text has allocated: at least its length, and as many more as the machine
    /// gave.
    pub closed spec fn reserved(&self) -> nat {
        self.reserved as nat
    }

    /// The bytes that the text and its history retain.
    pub open spec fn retained(&self) -> nat {
        self.reserved() + self@.history.bytes()
    }

    /// What is retained is within its limit, wherever the text has no more than that allocated.
    pub open spec fn within(&self) -> bool {
        self.reserved() <= self@.retention ==> self.retained() <= self@.retention
    }

    /// What every well-formed editor keeps.
    pub proof fn law_bounds(&self)
        requires
            self.wf(),
        ensures
            self@.valid(),
            self@.cursor <= text::size(self@.text),
            self@.retention <= MAX_RETAINED,
            self@.history.undo.len() + self@.history.redo.len() <= journal::MAXIMUM_CHANGES,
            self@.history.bytes() <= MAXIMUM_BYTES,
            text::size(self@.text) <= self.reserved() <= usize::MAX,
    {
        text::lemma_boundary_split(self@.text, self@.cursor);
        self.journal.law_bounds();
    }

    /// An editor over a text, with the cursor at its end.
    pub fn with_text(value: String, limit: usize) -> (r: Editor)
        ensures
            r.wf(),
            r.within(),
            r@ == EditorView::over(value@, limit as nat),
    {
        let cursor: usize = byte_len(value.as_str());
        proof {
            text::lemma_boundary_ends(value@);
        }
        let reserved: usize = capacity(&value);
        let r = Editor {
            text: value,
            cursor,
            limit,
            retention_limit: MAX_RETAINED,
            journal: Journal::new(),
            reserved,
        };
        proof {
            assert(r@ =~= EditorView::over(r.text@, limit as nat));
        }
        r
    }

    /// The text.
    pub fn text(&self) -> (r: &str)
        ensures
            r@ == self@.text,
    {
        self.text.as_str()
    }

    /// The byte offset of the cursor.
    pub fn cursor(&self) -> (r: usize)
        ensures
            r == self@.cursor,
    {
        self.cursor
    }

    /// Changes how many bytes the text may grow to.
    pub fn set_limit(&mut self, limit: usize)
        requires
            old(self).wf(),
        ensures
            final(self).wf(),
            final(self)@ == (EditorView { limit: limit as nat, ..old(self)@ }),
            final(self).reserved() == old(self).reserved(),
    {
        self.limit = limit;
        proof {
            assert(self@ =~= EditorView { limit: limit as nat, ..old(self)@ });
        }
    }

    /// Bytes that the text has allocated and the history holds.
    pub fn retained_bytes(&self) -> (n: usize)
        requires
            self.wf(),
        ensures
            n == (if self.retained() <= usize::MAX {
                self.retained()
            } else {
                usize::MAX as nat
            }),
            n >= text::size(self@.text),
    {
        self.reserved.saturating_add(self.journal.bytes())
    }

    /// Whether anything can be undone or done again.
    pub fn has_edits(&self) -> (r: bool)
        ensures
            r == (self@.history.undo.len() > 0 || self@.history.redo.len() > 0),
    {
        self.journal.undo_len() > 0 || self.journal.redo_len() > 0
    }

    /// Steps that can be undone.
    pub fn undo_len(&self) -> (n: usize)
        ensures
            n == self@.history.undo.len(),
    {
        self.journal.undo_len()
    }

    /// Steps that can be done again.
    pub fn redo_len(&self) -> (n: usize)
        ensures
            n == self@.history.redo.len(),
    {
        self.journal.redo_len()
    }

    /// Bytes of text that the history holds.
    pub fn history_bytes(&self) -> (n: usize)
        requires
            self.wf(),
        ensures
            n == self@.history.bytes(),
            n <= MAXIMUM_BYTES,
    {
        self.journal.bytes()
    }

    /// The bytes that the limit leaves for the history once the text has its space.
    fn budget(&self) -> (n: usize)
        ensures
            n == left_of(self@.retention, self.reserved()),
    {
        left(self.retention_limit, self.reserved)
    }

    /// Limits what the text and its history may hold together, and drops the part of the
    /// history that does not fit any more beside what the text has allocated.
    pub fn set_retention_limit(&mut self, limit: usize)
        requires
            old(self).wf(),
        ensures
            final(self).wf(),
            final(self).within(),
            final(self)@ == (EditorView {
                retention: if limit <= MAX_RETAINED {
                    limit as nat
                } else {
                    MAX_RETAINED as nat
                },
                history: old(self)@.history.trimmed(
                    left_of(final(self)@.retention, final(self).reserved()) as int,
                ),
                ..old(self)@
            }),
            old(self).reserved() <= final(self)@.retention ==> final(self).reserved() == old(
                self,
            ).reserved(),
    {
        self.retention_limit = if limit <= MAX_RETAINED {
            limit
        } else {
            MAX_RETAINED
        };
        if self.reserved > self.retention_limit {
            self.text.shrink_to_fit();
            self.reserved = capacity(&self.text);
        }
        let ghost h = self.journal@;
        let budget: usize = self.budget();
        self.journal.trim(budget);
        proof {
            lemma_trim_valid(self.text@, h, budget as int);
            journal::law_trim(h, budget as int);
            assert(self@.history == h.trimmed(budget as int));
        }
    }

    /// Replaces the characters between two byte offsets and keeps the rest.
    fn splice_text(&mut self, from: usize, to: usize, value: &str)
        requires
            from <= to,
            text::boundary(old(self)@.text, from as int),
            text::boundary(old(self)@.text, to as int),
        ensures
            final(self)@ == (EditorView {
                text: splice(
                    old(self)@.text,
                    from as int,
                    old(self)@.between(from as int, to as int),
                    value@,
                ),
                ..old(self)@
            }),
            final(self).journal == old(self).journal,
            final(self).retention_limit == old(self).retention_limit,
            text::size(final(self)@.text) <= final(self).reserved,
    {
        let ghost v = self@;
        proof {
            lemma_between(v.text, from as int, to as int);
        }
        let mut next: String = split(self.text.as_str(), from).0.to_owned();
        next.append(value);
        next.append(split(self.text.as_str(), to).1);
        next.shrink_to_fit();
        self.reserved = capacity(&next);
        self.text = next;
        proof {
            assert(self.text@ =~= splice(
                v.text,
                from as int,
                v.between(from as int, to as int),
                value@,
            ));
            assert(self@ =~= EditorView { text: self.text@, ..v });
        }
    }

    /// Replaces the text between two byte offsets as one step of the history.
    pub fn replace(&mut self, from: usize, to: usize, value: &str)
        requires
            old(self).wf(),
            from <= to,
            text::boundary(old(self)@.text, from as int),
            text::boundary(old(self)@.text, to as int),
        ensures
            final(self).wf(),
            old(self).within() ==> final(self).within(),
            edited_beside(
                old(self)@,
                from as int,
                to as int,
                value@,
                final(self)@,
                final(self).reserved(),
            ),
            edited(old(self)@, from as int, to as int, value@, final(self)@),
    {
        let ghost v = self@;
        proof {
            lemma_between(v.text, from as int, to as int);
        }
        let removed = slice(self.text.as_str(), from, to);
        if same(removed, value) {
            proof {
                assert(edited_beside(v, from as int, to as int, value@, self@, self.reserved()));
            }
            return;
        }
        let removed = removed.to_owned();
        let before: usize = self.cursor;
        self.splice_text(from, to, value);
        proof {
            lemma_splice(v.text, from as int, removed@, value@);
        }
        let total: usize = byte_len(self.text.as_str());
        let after: usize = find_cluster(self.text.as_str(), from + byte_len(value));
        let change = Change { start: from, removed, inserted: value.to_owned(), before, after };
        self.cursor = after;
        let budget: usize = self.budget();
        let ghost c = change@;
        self.journal.record(change, budget);
        proof {
            assert(c =~= change_of(v, from as int, to as int, value@));
            let h = History { undo: v.history.undo.push(c), redo: seq![] };
            assert(self@.history == h.trimmed(budget as int));
            journal::law_trim(h, budget as int);
            assert(edited_beside(v, from as int, to as int, value@, self@, self.reserved()));
            lemma_edited_valid(v, from as int, to as int, value@, self@);
        }
    }

    /// Replaces the text between two byte offsets, unless the value holds a refused character
    /// or the text would exceed its limit.
    pub fn replace_range(&mut self, from: usize, to: usize, value: &str) -> (r: Result<
        (),
        &'static str,
    >)
        requires
            old(self).wf(),
            from <= to,
            text::boundary(old(self)@.text, from as int),
            text::boundary(old(self)@.text, to as int),
        ensures
            final(self).wf(),
            if refused(value@) {
                r matches Err(e) && e@ == "Input contains NUL or DEL; nothing was inserted"@
                    && final(self)@ == old(self)@
            } else if text::size(old(self)@.text) - (to - from) + text::size(value@) > old(
                self,
            )@.room() {
                r matches Err(e) && e@ == "Input exceeds its size limit; nothing was inserted"@
                    && final(self)@ == old(self)@
            } else {
                &&& r is Ok
                &&& edited(old(self)@, from as int, to as int, value@, final(self)@)
                &&& edited_beside(
                    old(self)@,
                    from as int,
                    to as int,
                    value@,
                    final(self)@,
                    final(self).reserved(),
                )
            },
            old(self).within() ==> final(self).within(),
    {
        if contains_char(value, '\0') || contains_char(value, '\u{7f}') {
            return Err("Input contains NUL or DEL; nothing was inserted");
        }
        proof {
            lemma_between(self@.text, from as int, to as int);
        }
        let kept: usize = byte_len(self.text.as_str()) - (to - from);
        if kept.saturating_add(byte_len(value)) > self.room() {
            return Err("Input exceeds its size limit; nothing was inserted");
        }
        self.replace(from, to, value);
        Ok(())
    }

    /// Bytes that the text may have.
    fn room(&self) -> (n: usize)
        ensures
            n == self@.room(),
            n <= MAX_TEXT,
    {
        let mut n: usize = self.limit;
        if n > MAX_TEXT {
            n = MAX_TEXT;
        }
        if n > self.retention_limit {
            n = self.retention_limit;
        }
        n
    }

    /// Inserts a text at the cursor, with its line breaks written as newlines. A text with a
    /// refused character, or one that does not fit, changes nothing.
    pub fn insert(&mut self, value: &str) -> (r: Result<(), &'static str>)
        requires
            old(self).wf(),
        ensures
            final(self).wf(),
            old(self).within() ==> final(self).within(),
            inserted_beside(old(self)@, value@, r, final(self)@, final(self).reserved()),
            inserted(old(self)@, value@, r, final(self)@),
    {
        let ghost v = self@;
        let ghost given = value@;
        if contains_char(value, '\0') || contains_char(value, '\u{7f}') {
            let r: Result<(), &'static str> = Err("Input contains NUL or DEL; nothing was inserted");
            proof {
                assert(inserted_beside(v, given, r, self@, self.reserved()));
            }
            return r;
        }
        let value = normalize(value);
        let total: usize = byte_len(self.text.as_str());
        if total.saturating_add(byte_len(value.as_str())) > self.room() {
            let r: Result<(), &'static str> = Err(
                "Input exceeds its size limit; nothing was inserted",
            );
            proof {
                assert(inserted_beside(v, given, r, self@, self.reserved()));
            }
            return r;
        }
        let at: usize = self.cursor;
        self.replace(at, at, value.as_str());
        let r: Result<(), &'static str> = Ok(());
        proof {
            assert(inserted_beside(v, given, r, self@, self.reserved()));
        }
        r
    }

    /// Replaces the whole text as one step of the history.
    pub fn replace_text(&mut self, value: &str) -> (r: Result<(), &'static str>)
        requires
            old(self).wf(),
        ensures
            final(self).wf(),
            old(self).within() ==> final(self).within(),
            replaced_beside(old(self)@, value@, r, final(self)@, final(self).reserved()),
            replaced(old(self)@, value@, r, final(self)@),
    {
        let ghost v = self@;
        if contains_char(value, '\0') || contains_char(value, '\u{7f}') {
            let r: Result<(), &'static str> = Err("Input contains NUL or DEL; nothing was inserted");
            proof {
                assert(replaced_beside(v, value@, r, self@, self.reserved()));
            }
            return r;
        }
        if byte_len(value) > self.room() {
            let r: Result<(), &'static str> = Err(
                "Input exceeds its size limit; nothing was inserted",
            );
            proof {
                assert(replaced_beside(v, value@, r, self@, self.reserved()));
            }
            return r;
        }
        let total: usize = byte_len(self.text.as_str());
        proof {
            text::lemma_boundary_ends(self@.text);
        }
        self.replace(0, total, value);
        let r: Result<(), &'static str> = Ok(());
        proof {
            assert(replaced_beside(v, value@, r, self@, self.reserved()));
        }
        r
    }

    /// Takes one step back in the history or, with `redo`, forward.
    pub fn travel(&mut self, redo: bool)
        requires
            old(self).wf(),
        ensures
            final(self).wf(),
            old(self).within() ==> final(self).within(),
            travelled_beside(old(self)@, redo, final(self)@, final(self).reserved()),
            travelled(old(self)@, redo, final(self)@),
    {
        let ghost v = self@;
        let change = if redo {
            self.journal.pop_redo()
        } else {
            self.journal.pop_undo()
        };
        let change = match change {
            Some(change) => change,
            None => {
                proof {
                    assert(self@ =~= v);
                    assert(travelled_beside(v, redo, self@, self.reserved()));
                }
                return;
            },
        };
        let ghost c = change@;
        let ghost popped = self.journal@;
        let start: usize = change.start;
        if redo {
            proof {
                lemma_occurs_end(v.text, c.start, c.removed);
                lemma_splice(v.text, c.start, c.removed, c.inserted);
            }
            let total: usize = byte_len(self.text.as_str());
            self.splice_text(start, start + byte_len(change.removed.as_str()), change.inserted.as_str());
            self.cursor = change.after;
            let budget: usize = self.budget();
            self.journal.push_undo(change, budget);
            proof {
                let h = History { undo: v.history.undo.push(c), redo: v.history.redo.drop_last() };
                assert(h =~= History { undo: popped.undo.push(c), redo: popped.redo });
                assert(self@.history == h.trimmed(budget as int));
                journal::law_trim(h, budget as int);
                assert(travelled_beside(v, redo, self@, self.reserved()));
                lemma_travelled_valid(v, redo, self@);
            }
        } else {
            proof {
                lemma_occurs_end(v.text, c.start, c.inserted);
                lemma_splice(v.text, c.start, c.inserted, c.removed);
            }
            let total: usize = byte_len(self.text.as_str());
            self.splice_text(start, start + byte_len(change.inserted.as_str()), change.removed.as_str());
            self.cursor = change.before;
            let budget: usize = self.budget();
            self.journal.push_redo(change, budget);
            proof {
                let h = History { undo: v.history.undo.drop_last(), redo: v.history.redo.push(c) };
                assert(h =~= History { undo: popped.undo, redo: popped.redo.push(c) });
                assert(self@.history == h.trimmed(budget as int));
                journal::law_trim(h, budget as int);
                assert(travelled_beside(v, redo, self@, self.reserved()));
                lemma_travelled_valid(v, redo, self@);
            }
        }
    }

    /// Hands out the text and leaves the editor empty, with nothing to undo.
    pub fn take(&mut self) -> (r: String)
        requires
            old(self).wf(),
        ensures
            final(self).wf(),
            final(self).within(),
            r@ == old(self)@.text,
            final(self)@ == (EditorView {
                text: seq![],
                cursor: 0,
                history: History::empty(),
                ..old(self)@
            }),
    {
        let ghost v = self@;
        let mut taken = String::new();
        std::mem::swap(&mut taken, &mut self.text);
        self.reserved = capacity(&self.text);
        self.cursor = 0;
        self.journal.clear();
        proof {
            text::lemma_boundary_ends(self.text@);
            assert(self@ =~= EditorView {
                text: seq![],
                cursor: 0,
                history: History::empty(),
                ..v
            });
        }
        taken
    }

    /// The start of the grapheme cluster before the cursor.
    fn previous(&self) -> (r: usize)
        requires
            self.wf(),
        ensures
            r == cluster_before(self@.text, self@.cursor),
            r <= self@.cursor,
            text::boundary(self@.text, r as int),
    {
        let (before, _) = split(self.text.as_str(), self.cursor);
        let starts = grapheme_starts(before);
        let n: usize = starts.len();
        if n == 0 {
            proof {
                text::lemma_boundary_ends(self@.text);
            }
            0
        } else {
            proof {
                text::lemma_boundary_ends(self@.text);
                let i: int = text::fit(self@.text, self@.cursor) as int;
                assert(before@ =~= self@.text.subrange(0, i));
                lemma_inner_boundary(self@.text, 0, self@.cursor, starts@[n - 1] as int);
            }
            starts[n - 1]
        }
    }

    /// The end of the grapheme cluster behind the cursor.
    fn following(&self) -> (r: usize)
        requires
            self.wf(),
        ensures
            r == cluster_after(self@.text, self@.cursor),
            self@.cursor <= r,
            text::boundary(self@.text, r as int),
    {
        let (_, after) = split(self.text.as_str(), self.cursor);
        let starts = grapheme_starts(after);
        let total: usize = byte_len(self.text.as_str());
        proof {
            let v = self@;
            text::lemma_boundary_ends(v.text);
            text::lemma_boundary_split(v.text, v.cursor);
            if starts@.len() > 1 {
                let i: int = text::fit(v.text, v.cursor) as int;
                assert(after@ =~= v.text.subrange(i, v.text.len() as int));
                lemma_inner_boundary(v.text, v.cursor, total as int, starts@[1] as int);
            }
        }
        if starts.len() > 1 {
            self.cursor + starts[1]
        } else {
            total
        }
    }

    /// Grapheme clusters between two byte offsets, and where one column of them begins.
    fn clusters(&self, from: usize, to: usize) -> (r: Vec<usize>)
        requires
            from <= to,
            text::boundary(self@.text, from as int),
            text::boundary(self@.text, to as int),
        ensures
            r@ == grapheme_offsets(self@.between(from as int, to as int)),
            cuts(self@.between(from as int, to as int), r@),
    {
        grapheme_starts(slice(self.text.as_str(), from, to))
    }

    fn column_at(&self, from: usize, to: usize, column: usize) -> (r: usize)
        requires
            from <= to,
            text::boundary(self@.text, from as int),
            text::boundary(self@.text, to as int),
        ensures
            r == column_offset(self@, from as int, to as int, column as int),
            text::boundary(self@.text, r as int),
    {
        let starts = self.clusters(from, to);
        if column < starts.len() {
            proof {
                lemma_inner_boundary(
                    self@.text,
                    from as int,
                    to as int,
                    starts@[column as int] as int,
                );
            }
            from + starts[column]
        } else {
            to
        }
    }

    /// Moves the cursor to a byte offset between two characters.
    fn move_to(&mut self, at: usize)
        requires
            old(self).wf(),
            text::boundary(old(self)@.text, at as int),
        ensures
            final(self).wf(),
            final(self)@ == (EditorView { cursor: at as int, ..old(self)@ }),
            final(self).reserved() == old(self).reserved(),
    {
        self.cursor = at;
        proof {
            assert(self@ =~= EditorView { cursor: at as int, ..old(self)@ });
        }
    }

    /// Acts on a key. A key that means nothing to an editor is ignored.
    pub fn key(&mut self, key: KeyEvent) -> (r: Result<(), &'static str>)
        requires
            old(self).wf(),
        ensures
            final(self).wf(),
            old(self).within() ==> final(self).within(),
            pressed_beside(old(self)@, key, r, final(self)@, final(self).reserved()),
            pressed(old(self)@, key, r, final(self)@),
            0 <= cluster_before(old(self)@.text, old(self)@.cursor) <= old(self)@.cursor
                <= cluster_after(old(self)@.text, old(self)@.cursor),
            text::boundary(
                old(self)@.text,
                cluster_before(old(self)@.text, old(self)@.cursor),
            ),
            text::boundary(old(self)@.text, cluster_after(old(self)@.text, old(self)@.cursor)),
    {
        let ghost v = self@;
        let before: usize = self.previous();
        let behind: usize = self.following();
        let r = self.press(key, before, behind);
        proof {
            assert(pressed_beside(v, key, r, self@, self.reserved()));
        }
        r
    }

    /// Acts on a key, between the clusters before and behind the cursor.
    fn press(&mut self, key: KeyEvent, before: usize, behind: usize) -> (r: Result<
        (),
        &'static str,
    >)
        requires
            old(self).wf(),
            before == cluster_before(old(self)@.text, old(self)@.cursor),
            behind == cluster_after(old(self)@.text, old(self)@.cursor),
            before <= old(self)@.cursor <= behind,
            text::boundary(old(self)@.text, before as int),
            text::boundary(old(self)@.text, behind as int),
        ensures
            final(self).wf(),
            old(self).within() ==> final(self).within(),
            pressed_beside(old(self)@, key, r, final(self)@, final(self).reserved()),
    {
        let total: usize = byte_len(self.text.as_str());
        proof {
            text::lemma_boundary_ends(self@.text);
            text::lemma_boundary_split(self@.text, self@.cursor);
            assert(EditorView { cursor: self@.cursor, ..self@ } =~= self@);
        }
        match key.code {
            KeyCode::Char(c) => {
                if (c == 'z' || c == 'Z') && (key.control || key.alt) {
                    self.travel(key.alt || key.shift);
                    Ok(())
                } else if key.control {
                    if c == 'j' {
                        proof {
                            reveal_strlit("\n");
                            assert("\n"@ =~= seq!['\n']);
                        }
                        self.insert("\n")
                    } else {
                        if c == 'a' {
                            self.move_to(0);
                        } else if c == 'e' {
                            self.move_to(total);
                        } else if c == 'u' {
                            let at: usize = self.cursor;
                            proof {
                                reveal_strlit("");
                                assert(""@ =~= Seq::<char>::empty());
                            }
                            self.replace(0, at, "");
                        }
                        Ok(())
                    }
                } else if key.alt {
                    Ok(())
                } else {
                    let mut one = String::new();
                    one.push(c);
                    proof {
                        assert(one@ =~= seq![c]);
                    }
                    self.insert(one.as_str())
                }
            },
            KeyCode::Enter => {
                if key.shift {
                    proof {
                        reveal_strlit("\n");
                        assert("\n"@ =~= seq!['\n']);
                    }
                    self.insert("\n")
                } else {
                    Ok(())
                }
            },
            KeyCode::Left => {
                self.move_to(before);
                Ok(())
            },
            KeyCode::Right => {
                self.move_to(behind);
                Ok(())
            },
            KeyCode::Up => {
                let start: usize = find_line_start(self.text.as_str(), self.cursor);
                if start > 0 {
                    let column: usize = self.clusters(start, self.cursor).len();
                    let from: usize = find_line_start(self.text.as_str(), start - 1);
                    let at: usize = self.column_at(from, start - 1, column);
                    self.move_to(at);
                }
                Ok(())
            },
            KeyCode::Down => {
                let end: usize = find_line_end(self.text.as_str(), self.cursor);
                if end < total {
                    let start: usize = find_line_start(self.text.as_str(), self.cursor);
                    let column: usize = self.clusters(start, self.cursor).len();
                    let to: usize = find_line_end(self.text.as_str(), end + 1);
                    let at: usize = self.column_at(end + 1, to, column);
                    self.move_to(at);
                }
                Ok(())
            },
            KeyCode::Home => {
                let at: usize = find_line_start(self.text.as_str(), self.cursor);
                self.move_to(at);
                Ok(())
            },
            KeyCode::End => {
                let at: usize = find_line_end(self.text.as_str(), self.cursor);
                self.move_to(at);
                Ok(())
            },
            KeyCode::Backspace => {
                let at: usize = self.cursor;
                proof {
                    reveal_strlit("");
                    assert(""@ =~= Seq::<char>::empty());
                }
                self.replace(before, at, "");
                Ok(())
            },
            KeyCode::Delete => {
                let at: usize = self.cursor;
                proof {
                    reveal_strlit("");
                    assert(""@ =~= Seq::<char>::empty());
                }
                self.replace(at, behind, "");
                Ok(())
            },
            _ => Ok(()),
        }
    }
}

proof fn lemma_occurs_end(s: Seq<char>, start: int, part: Seq<char>)
    requires
        occurs(s, start, part),
    ensures
        text::boundary(s, start + text::size(part)),
        text::fit(s, start + text::size(part)) == text::fit(s, start) + part.len(),
        start + text::size(part) <= text::size(s),
        s.subrange(
            text::fit(s, start) as int,
            text::fit(s, start + text::size(part)) as int,
        ) == part,
{
    let k: int = text::fit(s, start) as int;
    text::lemma_fit(s, start);
    assert(s.take(k + part.len()) =~= s.take(k) + part);
    text::lemma_size_concat(s.take(k), part);
    text::lemma_fit_exact(s, k + part.len());
    text::lemma_size_split(s, k + part.len());
}

impl Clone for Editor {
    fn clone(&self) -> (r: Self)
        ensures
            r@ == self@,
            self.wf() ==> r.wf(),
    {
        let text = self.text.clone();
        let reserved: usize = capacity(&text);
        let r = Editor {
            text,
            cursor: self.cursor,
            limit: self.limit,
            retention_limit: self.retention_limit,
            journal: self.journal.clone(),
            reserved,
        };
        proof {
            assert(r@ =~= self@);
        }
        r
    }
}

/// The newest change is kept wherever its own bytes fit.
proof fn lemma_newest_kept(h: History, budget: int)
    requires
        h.undo.len() > 0,
        h.redo.len() == 0,
        journal::cost(h.undo.last()) <= budget,
        journal::cost(h.undo.last()) <= MAXIMUM_BYTES,
    ensures
        h.trimmed(budget).undo.len() > 0,
        h.trimmed(budget).undo.last() == h.undo.last(),
        h.trimmed(budget).redo.len() == 0,
    decreases h.undo.len(),
{
    if h.over(budget) {
        if h.undo.len() == 1 {
            assert(h.undo =~= Seq::<ChangeView>::empty().push(h.undo.last()));
            journal::lemma_cost_push(Seq::empty(), h.undo.last());
            assert(journal::cost_of(Seq::<ChangeView>::empty()) == 0);
            assert(journal::cost_of(h.redo) == 0);
            assert(false);
        }
        let g = History { undo: h.undo.drop_first(), redo: h.redo };
        assert(g.undo.last() == h.undo.last());
        lemma_newest_kept(g, budget);
    }
}

/// The change that would be done again next is kept wherever its own bytes fit.
proof fn lemma_next_kept(h: History, budget: int)
    requires
        h.redo.len() > 0,
        journal::cost(h.redo.last()) <= budget,
        journal::cost(h.redo.last()) <= MAXIMUM_BYTES,
    ensures
        h.trimmed(budget).redo.len() > 0,
        h.trimmed(budget).redo.last() == h.redo.last(),
    decreases h.undo.len() + h.redo.len(),
{
    if h.over(budget) {
        if h.undo.len() > 0 {
            lemma_next_kept(History { undo: h.undo.drop_first(), redo: h.redo }, budget);
        } else {
            if h.redo.len() == 1 {
                assert(h.redo =~= Seq::<ChangeView>::empty().push(h.redo.last()));
                journal::lemma_cost_push(Seq::empty(), h.redo.last());
                assert(journal::cost_of(Seq::<ChangeView>::empty()) == 0);
                assert(journal::cost_of(h.undo) == 0);
                assert(false);
            }
            let g = History { undo: h.undo, redo: h.redo.drop_first() };
            assert(g.redo.last() == h.redo.last());
            lemma_next_kept(g, budget);
        }
    }
}

/// Whether the bytes of an edit fit beside a text that has `capacity` bytes allocated, and into a
/// history at all.
pub open spec fn edit_fits(
    v: EditorView,
    from: int,
    to: int,
    value: Seq<char>,
    capacity: nat,
) -> bool {
    let bytes = journal::cost(change_of(v, from, to, value));
    bytes <= left_of(v.retention, capacity) && bytes <= MAXIMUM_BYTES
}

/// An edit is kept in the history wherever its bytes fit beside what the text has allocated after it.
pub proof fn law_edit_is_kept(
    v: EditorView,
    from: int,
    to: int,
    value: Seq<char>,
    w: EditorView,
    capacity: nat,
)
    requires
        edited_beside(v, from, to, value, w, capacity),
        v.between(from, to) != value,
        edit_fits(v, from, to, value, capacity),
    ensures
        w.history.undo.len() > 0,
        w.history.undo.last() == change_of(v, from, to, value),
        w.history.redo.len() == 0,
{
    let c = change_of(v, from, to, value);
    let h = History { undo: v.history.undo.push(c), redo: seq![] };
    lemma_newest_kept(h, left_of(w.retention, capacity) as int);
}

/// Undoing an edit whose bytes fit restores the text and the cursor exactly, and doing it again
/// restores those that it led to. `after` is what the text has allocated once the edit was undone.
pub proof fn law_edit_undo_redo(
    v: EditorView,
    from: int,
    to: int,
    value: Seq<char>,
    w: EditorView,
    x: EditorView,
    y: EditorView,
    capacity: nat,
    after: nat,
)
    requires
        v.valid(),
        0 <= from <= to,
        text::boundary(v.text, from),
        text::boundary(v.text, to),
        v.between(from, to) != value,
        text::size(w.text) <= capacity,
        text::size(x.text) <= after,
        edited_beside(v, from, to, value, w, capacity),
        edit_fits(v, from, to, value, capacity),
        travelled_beside(w, false, x, after),
        travelled(x, true, y),
    ensures
        x.text == v.text,
        x.cursor == v.cursor,
        edit_fits(v, from, to, value, after) ==> y.text == w.text && y.cursor == w.cursor,
{
    let c = change_of(v, from, to, value);
    law_edit_is_kept(v, from, to, value, w, capacity);
    assert(edited(v, from, to, value, w));
    assert(travelled(w, false, x));
    law_undo_restores(v, from, to, value, w, x);
    if edit_fits(v, from, to, value, after) {
        let g = History { undo: w.history.undo.drop_last(), redo: w.history.redo.push(c) };
        assert(g.redo.last() == c);
        lemma_next_kept(g, left_of(x.retention, after) as int);
        law_redo_restores(v, from, to, value, w, x, y);
    }
}

/// What a key that deletes took away comes back, with the cursor, where its bytes fit.
pub proof fn law_deletion_undo(
    v: EditorView,
    key: KeyEvent,
    r: Result<(), &'static str>,
    w: EditorView,
    x: EditorView,
    capacity: nat,
)
    requires
        v.valid(),
        key.code is Backspace || key.code is Delete,
        0 <= cluster_before(v.text, v.cursor) <= v.cursor <= cluster_after(v.text, v.cursor),
        text::boundary(v.text, cluster_before(v.text, v.cursor)),
        text::boundary(v.text, cluster_after(v.text, v.cursor)),
        text::size(w.text) <= capacity,
        pressed_beside(v, key, r, w, capacity),
        w.text != v.text,
        journal::cost(
            change_of(
                v,
                if key.code is Backspace {
                    cluster_before(v.text, v.cursor)
                } else {
                    v.cursor
                },
                if key.code is Backspace {
                    v.cursor
                } else {
                    cluster_after(v.text, v.cursor)
                },
                seq![],
            ),
        ) <= left_of(v.retention, capacity),
        text::size(v.text) <= MAXIMUM_BYTES,
        travelled(w, false, x),
    ensures
        x.text == v.text,
        x.cursor == v.cursor,
{
    let from = if key.code is Backspace {
        cluster_before(v.text, v.cursor)
    } else {
        v.cursor
    };
    let to = if key.code is Backspace {
        v.cursor
    } else {
        cluster_after(v.text, v.cursor)
    };
    let value: Seq<char> = seq![];
    lemma_between(v.text, from, to);
    assert(edited_beside(v, from, to, value, w, capacity));
    assert(edited(v, from, to, value, w));
    assert(journal::cost(change_of(v, from, to, value)) <= MAXIMUM_BYTES) by {
        assert(text::size(value) == 0);
    }
    law_edit_is_kept(v, from, to, value, w, capacity);
    law_undo_restores(v, from, to, value, w, x);
}

/// Undoing an edit that is still in the history restores the text and the cursor exactly.
pub proof fn law_undo_restores(
    v: EditorView,
    from: int,
    to: int,
    value: Seq<char>,
    w: EditorView,
    x: EditorView,
)
    requires
        v.valid(),
        0 <= from <= to,
        text::boundary(v.text, from),
        text::boundary(v.text, to),
        edited(v, from, to, value, w),
        v.between(from, to) != value,
        w.history.undo.len() > 0,
        travelled(w, false, x),
    ensures
        x.text == v.text,
        x.cursor == v.cursor,
{
    let c = change_of(v, from, to, value);
    lemma_between(v.text, from, to);
    lemma_splice(v.text, from, c.removed, value);
    let h = History { undo: v.history.undo.push(c), redo: seq![] };
    let capacity = choose|capacity: nat|
        text::size(w.text) <= capacity && #[trigger] edited_beside(v, from, to, value, w, capacity);
    lemma_trim_last(h, left_of(w.retention, capacity) as int);
    assert(w.history.undo.last() == c);
}

/// Doing an edit again after it was undone restores the text and the cursor that it led to.
pub proof fn law_redo_restores(
    v: EditorView,
    from: int,
    to: int,
    value: Seq<char>,
    w: EditorView,
    x: EditorView,
    y: EditorView,
)
    requires
        v.valid(),
        0 <= from <= to,
        text::boundary(v.text, from),
        text::boundary(v.text, to),
        edited(v, from, to, value, w),
        v.between(from, to) != value,
        w.history.undo.len() > 0,
        travelled(w, false, x),
        x.history.redo.len() > 0,
        travelled(x, true, y),
    ensures
        y.text == w.text,
        y.cursor == w.cursor,
{
    law_undo_restores(v, from, to, value, w, x);
    let c = change_of(v, from, to, value);
    let h = History { undo: v.history.undo.push(c), redo: seq![] };
    let capacity = choose|capacity: nat|
        text::size(w.text) <= capacity && #[trigger] edited_beside(v, from, to, value, w, capacity);
    lemma_trim_last(h, left_of(w.retention, capacity) as int);
    let g = History { undo: w.history.undo.drop_last(), redo: w.history.redo.push(c) };
    let other = choose|other: nat|
        text::size(x.text) <= other && #[trigger] travelled_beside(w, false, x, other);
    lemma_trim_last(g, left_of(x.retention, other) as int);
    assert(x.history.redo.last() == c);
}

/// A new edit leaves nothing to be done again.
pub proof fn law_edit_clears_redo(
    v: EditorView,
    from: int,
    to: int,
    value: Seq<char>,
    w: EditorView,
)
    requires
        edited(v, from, to, value, w),
        v.between(from, to) != value,
    ensures
        w.history.redo.len() == 0,
{
    let c = change_of(v, from, to, value);
    let h = History { undo: v.history.undo.push(c), redo: seq![] };
    let capacity = choose|capacity: nat|
        text::size(w.text) <= capacity && #[trigger] edited_beside(v, from, to, value, w, capacity);
    lemma_trim_last(h, left_of(w.retention, capacity) as int);
}

/// What trimming keeps is the nearest to the present.
proof fn lemma_trim_last(h: History, budget: int)
    requires
        0 <= budget,
    ensures
        h.trimmed(budget).undo.len() > 0 ==> h.undo.len() > 0 && h.trimmed(budget).undo.last()
            == h.undo.last(),
        h.trimmed(budget).redo.len() > 0 ==> h.redo.len() > 0 && h.trimmed(budget).redo.last()
            == h.redo.last(),
        h.trimmed(budget).redo.len() <= h.redo.len(),
{
    journal::law_trim(h, budget);
    let r = h.trimmed(budget);
    let (i, j) = choose|i: int, j: int|
        0 <= i <= h.undo.len() && 0 <= j <= h.redo.len() && (j > 0 ==> i == h.undo.len()) && r.undo
            == #[trigger] h.undo.skip(i) && r.redo == #[trigger] h.redo.skip(j);
}

/// Whether a text is a line or a part of one.
pub open spec fn on_one_line(s: Seq<char>) -> bool {
    forall|i: int| 0 <= i < s.len() ==> #[trigger] s[i] != '\n'
}

/// Whether a line can begin behind a text.
pub open spec fn ends_line(s: Seq<char>) -> bool {
    s.len() == 0 || s.last() == '\n'
}

/// Whether a line can end before a text.
pub open spec fn starts_line(s: Seq<char>) -> bool {
    s.len() == 0 || s[0] == '\n'
}

proof fn lemma_line_from_is(x: Seq<char>, left: Seq<char>)
    requires
        ends_line(x),
        on_one_line(left),
    ensures
        line_from(x + left) == x.len(),
    decreases left.len(),
{
    let s = x + left;
    if left.len() == 0 {
        assert(s =~= x);
    } else {
        assert(s.last() == left[left.len() - 1]);
        assert(s.drop_last() =~= x + left.drop_last());
        assert forall|i: int| 0 <= i < left.drop_last().len() implies #[trigger] left.drop_last()[i]
            != '\n' by {
            assert(left.drop_last()[i] == left[i]);
        }
        lemma_line_from_is(x, left.drop_last());
    }
}

proof fn lemma_line_len_is(left: Seq<char>, rest: Seq<char>)
    requires
        on_one_line(left),
        starts_line(rest),
    ensures
        line_len(left + rest) == left.len(),
{
    let s = left + rest;
    lemma_line_len(s);
    let n = line_len(s) as int;
    if n < left.len() {
        assert(s[n] == left[n]);
    }
    if n > left.len() {
        assert(s[left.len() as int] == rest[0]);
    }
}

proof fn lemma_at(s: Seq<char>, x: Seq<char>, y: Seq<char>)
    requires
        s == x + y,
    ensures
        text::fit(s, text::size(x) as int) == x.len(),
        text::boundary(s, text::size(x) as int),
        head(s, text::size(x) as int) == x,
        tail(s, text::size(x) as int) == y,
        text::size(s) == text::size(x) + text::size(y),
{
    assert(s.take(x.len() as int) =~= x);
    text::lemma_fit_exact(s, x.len() as int);
    assert(s.skip(x.len() as int) =~= y);
    text::lemma_size_concat(x, y);
}

proof fn lemma_line_start_is(s: Seq<char>, x: Seq<char>, left: Seq<char>, right: Seq<char>)
    requires
        s == x + left + right,
        ends_line(x),
        on_one_line(left),
    ensures
        line_start(s, text::size(x + left) as int) == text::size(x),
{
    lemma_at(s, x + left, right);
    lemma_line_from_is(x, left);
    assert(s.take(x.len() as int) =~= x);
}

proof fn lemma_line_end_is(s: Seq<char>, x: Seq<char>, line: Seq<char>, rest: Seq<char>)
    requires
        s == x + line + rest,
        on_one_line(line),
        starts_line(rest),
    ensures
        line_end(s, text::size(x) as int) == text::size(x + line),
{
    assert(s =~= x + (line + rest));
    lemma_at(s, x, line + rest);
    lemma_line_len_is(line, rest);
    assert((line + rest).take(line.len() as int) =~= line);
    text::lemma_size_concat(x, line);
}

proof fn lemma_between_is(v: EditorView, x: Seq<char>, y: Seq<char>, z: Seq<char>)
    requires
        v.text == x + y + z,
    ensures
        v.between(text::size(x) as int, text::size(x + y) as int) == y,
        text::boundary(v.text, text::size(x) as int),
        text::boundary(v.text, text::size(x + y) as int),
        text::size(x + y) == text::size(x) + text::size(y),
{
    assert(v.text =~= x + (y + z));
    lemma_at(v.text, x, y + z);
    lemma_at(v.text, x + y, z);
    text::lemma_size_concat(x, y);
    assert(v.text.subrange(x.len() as int, (x + y).len() as int) =~= y);
}

proof fn lemma_newline_size()
    ensures
        text::size(seq!['\n']) == 1,
{
    text::lemma_size_push(seq![], '\n');
    assert(Seq::<char>::empty().push('\n') =~= seq!['\n']);
    assert(text::size(seq![]) == 0);
}

/// From a line that is not the first, Up leads into the line above: past the one newline between
/// them and no other, to the grapheme cluster of that line with the number that the cursor had in
/// its own, or to the end of that line where it has too few. The text stays.
pub proof fn law_up(
    v: EditorView,
    key: KeyEvent,
    r: Result<(), &'static str>,
    w: EditorView,
    front: Seq<char>,
    above: Seq<char>,
    left: Seq<char>,
    right: Seq<char>,
)
    requires
        key.code is Up,
        pressed(v, key, r, w),
        v.text == front + above + seq!['\n'] + left + right,
        ends_line(front),
        on_one_line(above),
        on_one_line(left),
        v.cursor == text::size(front + above + seq!['\n'] + left),
    ensures
        r is Ok,
        w == (EditorView { cursor: w.cursor, ..v }),
        ({
            let g = grapheme_offsets(above);
            let n = grapheme_offsets(left).len() as int;
            w.cursor == text::size(front) + (if n < g.len() {
                g[n] as int
            } else {
                text::size(above) as int
            })
        }),
        cuts(above, grapheme_offsets(above)) ==> text::size(front) <= w.cursor <= text::size(
            front + above,
        ) < text::size(front + above + seq!['\n']),
        left.len() == 0 && cuts(above, grapheme_offsets(above)) && cuts(
            left,
            grapheme_offsets(left),
        ) ==> w.cursor == text::size(front),
{
    let s = v.text;
    let x = front + above + seq!['\n'];
    assert(x.last() == '\n');
    lemma_newline_size();
    text::lemma_size_concat(front + above, seq!['\n']);
    text::lemma_size_concat(front, above);
    lemma_line_start_is(s, x, left, right);
    let start = text::size(x) as int;
    assert(start - 1 == text::size(front + above));
    assert(s =~= front + above + (seq!['\n'] + left + right));
    lemma_line_start_is(s, front, above, seq!['\n'] + left + right);
    lemma_between_is(v, front, above, seq!['\n'] + left + right);
    lemma_between_is(v, x, left, right);
    assert(column(v) == grapheme_offsets(left).len());
}

/// From the first line, Up changes nothing.
pub proof fn law_up_at_top(
    v: EditorView,
    key: KeyEvent,
    r: Result<(), &'static str>,
    w: EditorView,
    left: Seq<char>,
    right: Seq<char>,
)
    requires
        key.code is Up,
        pressed(v, key, r, w),
        v.text == left + right,
        on_one_line(left),
        v.cursor == text::size(left),
    ensures
        r is Ok,
        w == v,
{
    assert(Seq::<char>::empty() + left =~= left);
    lemma_line_start_is(v.text, seq![], left, right);
    assert(text::size(seq![]) == 0);
}

/// From a line that is not the last, Down leads into the line below: behind the newline that ends
/// the line and before the next, to the grapheme cluster of that line with the number that the
/// cursor had in its own, or to the end of that line where it has too few. The text stays.
pub proof fn law_down(
    v: EditorView,
    key: KeyEvent,
    r: Result<(), &'static str>,
    w: EditorView,
    front: Seq<char>,
    left: Seq<char>,
    right: Seq<char>,
    below: Seq<char>,
    rest: Seq<char>,
)
    requires
        key.code is Down,
        pressed(v, key, r, w),
        v.text == front + left + right + seq!['\n'] + below + rest,
        ends_line(front),
        on_one_line(left),
        on_one_line(right),
        on_one_line(below),
        starts_line(rest),
        v.cursor == text::size(front + left),
    ensures
        r is Ok,
        w == (EditorView { cursor: w.cursor, ..v }),
        ({
            let g = grapheme_offsets(below);
            let n = grapheme_offsets(left).len() as int;
            w.cursor == text::size(front + left + right) + 1 + (if n < g.len() {
                g[n] as int
            } else {
                text::size(below) as int
            })
        }),
        cuts(below, grapheme_offsets(below)) ==> v.cursor < text::size(
            front + left + right + seq!['\n'],
        ) <= w.cursor <= text::size(front + left + right + seq!['\n'] + below),
        left.len() == 0 && cuts(below, grapheme_offsets(below)) && cuts(
            left,
            grapheme_offsets(left),
        ) ==> w.cursor == text::size(front + left + right + seq!['\n']),
{
    let s = v.text;
    let x = front + left;
    let y = x + right + seq!['\n'];
    let after = seq!['\n'] + below + rest;
    assert(s =~= x + right + after);
    lemma_newline_size();
    text::lemma_size_concat(x + right, seq!['\n']);
    text::lemma_size_concat(x, right);
    text::lemma_size_concat(y, below);
    text::lemma_size_concat(x + right, after);
    text::lemma_size_concat(seq!['\n'], below + rest);
    assert(after =~= seq!['\n'] + (below + rest));
    assert(s =~= front + left + (right + after));
    lemma_line_start_is(s, front, left, right + after);
    assert(after[0] == '\n');
    lemma_line_end_is(s, x, right, after);
    assert(s =~= y + below + rest);
    lemma_line_end_is(s, y, below, rest);
    lemma_between_is(v, y, below, rest);
    lemma_between_is(v, front, left, right + after);
    assert(column(v) == grapheme_offsets(left).len());
}

/// From the last line, Down changes nothing.
pub proof fn law_down_at_bottom(
    v: EditorView,
    key: KeyEvent,
    r: Result<(), &'static str>,
    w: EditorView,
    left: Seq<char>,
    right: Seq<char>,
)
    requires
        key.code is Down,
        pressed(v, key, r, w),
        v.text == left + right,
        on_one_line(right),
        v.cursor == text::size(left),
    ensures
        r is Ok,
        w == v,
{
    assert(v.text =~= left + right + seq![]);
    lemma_line_end_is(v.text, left, right, seq![]);
    assert(left + right =~= v.text);
}

/// Home leads to the beginning of the line and End to its end; neither changes the text.
pub proof fn law_line_ends(
    v: EditorView,
    key: KeyEvent,
    r: Result<(), &'static str>,
    w: EditorView,
    front: Seq<char>,
    left: Seq<char>,
    right: Seq<char>,
    rest: Seq<char>,
)
    requires
        key.code is Home || key.code is End,
        pressed(v, key, r, w),
        v.text == front + left + right + rest,
        ends_line(front),
        on_one_line(left),
        on_one_line(right),
        starts_line(rest),
        v.cursor == text::size(front + left),
    ensures
        r is Ok,
        key.code is Home ==> w == (EditorView { cursor: text::size(front) as int, ..v }),
        key.code is End ==> w == (EditorView {
            cursor: text::size(front + left + right) as int,
            ..v
        }),
{
    assert(v.text =~= front + left + (right + rest));
    lemma_line_start_is(v.text, front, left, right + rest);
    lemma_line_end_is(v.text, front + left, right, rest);
}

/// Left leads to the beginning of the grapheme cluster before the cursor and Right to the end of
/// the one behind it. Neither changes the text, and each moves unless there is none.
pub proof fn law_sideways(
    v: EditorView,
    key: KeyEvent,
    r: Result<(), &'static str>,
    w: EditorView,
    left: Seq<char>,
    right: Seq<char>,
)
    requires
        key.code is Left || key.code is Right,
        pressed(v, key, r, w),
        v.text == left + right,
        v.cursor == text::size(left),
        cuts(left, grapheme_offsets(left)),
        cuts(right, grapheme_offsets(right)),
    ensures
        r is Ok,
        w == (EditorView { cursor: w.cursor, ..v }),
        key.code is Left && left.len() == 0 ==> w.cursor == 0,
        key.code is Left && left.len() > 0 ==> w.cursor < v.cursor && w.cursor
            == grapheme_offsets(left).last(),
        key.code is Right && right.len() == 0 ==> w.cursor == v.cursor,
        key.code is Right && right.len() > 0 ==> v.cursor < w.cursor <= text::size(v.text)
            && w.cursor == v.cursor + (if grapheme_offsets(right).len() == 1 {
            text::size(right) as int
        } else {
            grapheme_offsets(right)[1] as int
        }),
{
    lemma_at(v.text, left, right);
    text::lemma_size_len(right);
    assert(text::size(seq![]) == 0);
    if right.len() == 0 {
        assert(right =~= seq![]);
    }
}

/// What stands between two pieces of a text is replaced, and they stay as they are.
pub proof fn law_edited(
    v: EditorView,
    x: Seq<char>,
    y: Seq<char>,
    z: Seq<char>,
    value: Seq<char>,
    w: EditorView,
)
    requires
        v.text == x + y + z,
        edited(v, text::size(x) as int, text::size(x + y) as int, value, w),
    ensures
        w.text == x + value + z,
        w.limit == v.limit,
        w.retention == v.retention,
        y == value ==> w == v,
        y != value && cuts(w.text, grapheme_offsets(w.text)) ==> text::size(x + value) <= w.cursor
            <= text::size(w.text),
{
    lemma_between_is(v, x, y, z);
    assert(v.text =~= x + (y + z));
    lemma_at(v.text, x, y + z);
    if y != value {
        let c = change_of(v, text::size(x) as int, text::size(x + y) as int, value);
        assert(v.text.take(x.len() as int) =~= x);
        assert(v.text.skip(x.len() as int + y.len()) =~= z);
        assert(w.text == x + value + z);
        text::lemma_size_concat(x, value);
        text::lemma_size_concat(x + value, z);
        lemma_offset_reached(
            grapheme_offsets(w.text),
            text::size(x + value) as int,
            text::size(w.text) as int,
        );
        if cuts(w.text, grapheme_offsets(w.text)) {
            lemma_offset_from(w.text, grapheme_offsets(w.text), text::size(x + value) as int);
        }
    }
}

proof fn lemma_offset_reached(offsets: Seq<usize>, at: int, end: int)
    requires
        at <= end,
    ensures
        at <= offset_from(offsets, at, end),
    decreases offsets.len(),
{
    if offsets.len() > 0 && offsets[0] < at {
        lemma_offset_reached(offsets.drop_first(), at, end);
    }
}

/// A text goes in at the cursor, with every line break written as a newline, wherever it holds
/// neither NUL nor DEL and the whole stays within the limits; otherwise nothing changes.
pub proof fn law_inserted(
    v: EditorView,
    left: Seq<char>,
    right: Seq<char>,
    value: Seq<char>,
    r: Result<(), &'static str>,
    w: EditorView,
)
    requires
        v.text == left + right,
        v.cursor == text::size(left),
        inserted(v, value, r, w),
    ensures
        r is Err ==> w == v,
        r is Ok ==> w.text == left + normalized(value) + right && w.limit == v.limit && w.retention
            == v.retention,
        r is Ok <==> {
            let total = text::size(v.text) + text::size(normalized(value));
            &&& !value.contains('\0')
            &&& !value.contains('\u{7f}')
            &&& total <= v.limit
            &&& total <= 1048576
            &&& total <= v.retention
        },
        r is Ok && normalized(value).len() > 0 && cuts(w.text, grapheme_offsets(w.text)) ==> v.cursor
            + text::size(normalized(value)) <= w.cursor,
{
    if r is Ok {
        let capacity = choose|capacity: nat|
            text::size(w.text) <= capacity && #[trigger] inserted_beside(v, value, r, w, capacity);
        assert(edited_beside(v, v.cursor, v.cursor, normalized(value), w, capacity));
        assert(edited(v, v.cursor, v.cursor, normalized(value), w));
        assert(v.text =~= left + seq![] + right);
        assert(left + Seq::<char>::empty() =~= left);
        law_edited(v, left, seq![], right, normalized(value), w);
        text::lemma_size_concat(left, normalized(value));
    }
}

/// No carriage return is left where line breaks are written as newlines; a text without one stays
/// as it is, and a carriage return, alone or with the newline behind it, gives one newline.
pub proof fn law_normalized(a: Seq<char>, b: Seq<char>)
    requires
        !a.contains('\r'),
    ensures
        !normalized(b).contains('\r'),
        normalized(a + b) == a + normalized(b),
        normalized(seq!['\r', '\n'] + b) == seq!['\n'] + normalized(b),
        starts_line(b) && b.len() > 0 || normalized(seq!['\r'] + b) == seq!['\n'] + normalized(b),
    decreases a.len() + b.len(),
{
    if b.len() > 0 {
        let n: int = if b[0] == '\r' && b.len() > 1 && b[1] == '\n' {
            2
        } else {
            1
        };
        law_normalized(seq![], b.skip(n));
        let first = normalized(b)[0];
        assert(normalized(b) =~= seq![first] + normalized(b.skip(n)));
        assert forall|i: int| 0 <= i < normalized(b).len() implies normalized(b)[i] != '\r' by {
            if i > 0 {
                assert(normalized(b)[i] == normalized(b.skip(n))[i - 1]);
                assert(normalized(b.skip(n)).contains(normalized(b.skip(n))[i - 1]));
            }
        }
    }
    if a.len() > 0 {
        let t = a.skip(1);
        assert forall|i: int| 0 <= i < t.len() implies t[i] != '\r' by {
            assert(t[i] == a[i + 1]);
            assert(a.contains(a[i + 1]));
        }
        law_normalized(t, b);
        assert(a.contains(a[0]));
        assert((a + b).skip(1) =~= t + b);
        assert(a =~= seq![a[0]] + t);
        assert(normalized(a + b) =~= a + normalized(b));
    } else {
        assert(a + b =~= b);
        assert(a + normalized(b) =~= normalized(b));
    }
    assert((seq!['\r', '\n'] + b).skip(2) =~= b);
    assert((seq!['\r'] + b).skip(1) =~= b);
}

/// The whole text is replaced by another wherever that holds neither NUL nor DEL and stays within
/// the limits; otherwise nothing changes.
pub proof fn law_replaced(
    v: EditorView,
    value: Seq<char>,
    r: Result<(), &'static str>,
    w: EditorView,
)
    requires
        replaced(v, value, r, w),
    ensures
        r is Err ==> w == v,
        r is Ok ==> w.text == value && w.limit == v.limit && w.retention == v.retention,
        r is Ok <==> {
            &&& !value.contains('\0')
            &&& !value.contains('\u{7f}')
            &&& text::size(value) <= v.limit
            &&& text::size(value) <= 1048576
            &&& text::size(value) <= v.retention
        },
{
    if r is Ok {
        let capacity = choose|capacity: nat|
            text::size(w.text) <= capacity && #[trigger] replaced_beside(v, value, r, w, capacity);
        let end = text::size(v.text) as int;
        assert(edited_beside(v, 0, end, value, w, capacity));
        assert(edited(v, 0, end, value, w));
        assert(Seq::<char>::empty() + v.text =~= v.text);
        assert(v.text =~= Seq::<char>::empty() + v.text + seq![]);
        assert(text::size(seq![]) == 0);
        law_edited(v, seq![], v.text, seq![], value, w);
        assert(Seq::<char>::empty() + value + seq![] =~= value);
    }
}

/// A key with a character writes it at the cursor, Shift and Enter, or Control and J, write a
/// newline there, where it fits; a character with Alt, Enter alone and the other characters with
/// Control write nothing.
pub proof fn law_typed(
    v: EditorView,
    key: KeyEvent,
    r: Result<(), &'static str>,
    w: EditorView,
    left: Seq<char>,
    right: Seq<char>,
)
    requires
        pressed(v, key, r, w),
        v.text == left + right,
        v.cursor == text::size(left),
    ensures
        r is Err ==> w == v,
        key.code matches KeyCode::Char(c) ==> {
            let room = text::size(v.text) + text::width(c) <= v.limit && text::size(v.text)
                + text::width(c) <= 1048576 && text::size(v.text) + text::width(c) <= v.retention;
            &&& !key.control && !key.alt && c != '\0' && c != '\u{7f}' && c != '\r' ==> {
                &&& r is Ok <==> room
                &&& room ==> w.text == left + seq![c] + right
            }
            &&& !key.control && !key.alt && (c == '\0' || c == '\u{7f}') ==> r is Err
            &&& key.control && c == 'j' && r is Ok ==> w.text == left + seq!['\n'] + right
            &&& key.control && c == 'j' ==> (r is Ok <==> room)
            &&& key.control && c != 'j' && c != 'a' && c != 'e' && c != 'u' && c != 'z' && c != 'Z'
                ==> w == v
            &&& key.alt && !key.control && c != 'z' && c != 'Z' ==> w == v
        },
        key.code is Enter && key.shift && r is Ok ==> w.text == left + seq!['\n'] + right,
        key.code is Enter && !key.shift ==> w == v,
{
    if let KeyCode::Char(c) = key.code {
        let typed = if key.control {
            seq!['\n']
        } else {
            seq![c]
        };
        lemma_newline_size();
        text::lemma_size_push(seq![], c);
        assert(Seq::<char>::empty().push(c) =~= seq![c]);
        assert(text::size(seq![]) == 0);
        if !(c == 'z' || c == 'Z') || !(key.control || key.alt) {
            if (key.control && c == 'j') || (!key.control && !key.alt) {
                let capacity = choose|capacity: nat|
                    text::size(w.text) <= capacity && #[trigger] pressed_beside(
                        v,
                        key,
                        r,
                        w,
                        capacity,
                    );
                assert(inserted_beside(v, typed, r, w, capacity));
                assert(inserted(v, typed, r, w));
                law_inserted(v, left, right, typed, r, w);
                assert(typed[0] != '\r' ==> normalized(typed) =~= typed) by {
                    reveal_with_fuel(normalized, 2);
                    assert(typed.skip(1) =~= seq![]);
                }
                assert(typed.contains('\0') ==> typed[0] == '\0');
                assert(typed.contains('\u{7f}') ==> typed[0] == '\u{7f}');
                if typed[0] == '\0' || typed[0] == '\u{7f}' {
                    assert(typed.contains(typed[0]));
                }
            }
        }
    }
    if key.code is Enter && key.shift {
        let typed = seq!['\n'];
        let capacity = choose|capacity: nat|
            text::size(w.text) <= capacity && #[trigger] pressed_beside(v, key, r, w, capacity);
        assert(inserted_beside(v, typed, r, w, capacity));
        assert(inserted(v, typed, r, w));
        law_inserted(v, left, right, typed, r, w);
        assert(normalized(typed) =~= typed) by {
            reveal_with_fuel(normalized, 2);
            assert(typed.skip(1) =~= seq![]);
        }
    }
}

/// Control and A lead to the beginning of the text, Control and E to its end; Control and U
/// removes what stands before the cursor, and nothing behind it.
pub proof fn law_text_ends(
    v: EditorView,
    key: KeyEvent,
    r: Result<(), &'static str>,
    w: EditorView,
    left: Seq<char>,
    right: Seq<char>,
)
    requires
        key.control,
        pressed(v, key, r, w),
        v.text == left + right,
        v.cursor == text::size(left),
    ensures
        key.code == KeyCode::Char('a') ==> r is Ok && w == (EditorView { cursor: 0, ..v }),
        key.code == KeyCode::Char('e') ==> r is Ok && w == (EditorView {
            cursor: text::size(left + right) as int,
            ..v
        }),
        key.code == KeyCode::Char('u') ==> r is Ok && w.text == right,
{
    if key.code == KeyCode::Char('u') {
        let capacity = choose|capacity: nat|
            text::size(w.text) <= capacity && #[trigger] pressed_beside(v, key, r, w, capacity);
        assert(edited_beside(v, 0, v.cursor, seq![], w, capacity));
        assert(edited(v, 0, v.cursor, seq![], w));
        assert(Seq::<char>::empty() + left =~= left);
        assert(v.text =~= Seq::<char>::empty() + left + right);
        assert(text::size(seq![]) == 0);
        law_edited(v, seq![], left, right, seq![], w);
        assert(Seq::<char>::empty() + seq![] + right =~= right);
    }
}

/// Backspace removes the grapheme cluster before the cursor and Delete the one behind it: each
/// something unless there is nothing on that side, and nothing of the other side.
pub proof fn law_removed(
    v: EditorView,
    key: KeyEvent,
    r: Result<(), &'static str>,
    w: EditorView,
    left: Seq<char>,
    right: Seq<char>,
)
    requires
        key.code is Backspace || key.code is Delete,
        pressed(v, key, r, w),
        v.text == left + right,
        v.cursor == text::size(left),
        cuts(left, grapheme_offsets(left)),
        cuts(right, grapheme_offsets(right)),
    ensures
        r is Ok,
        key.code is Backspace ==> exists|kept: Seq<char>, gone: Seq<char>|
            {
                &&& left == #[trigger] (kept + gone)
                &&& w.text == kept + right
                &&& left.len() > 0 ==> gone.len() > 0 && text::size(kept)
                    == grapheme_offsets(left).last()
            },
        key.code is Delete ==> exists|gone: Seq<char>, kept: Seq<char>|
            {
                &&& right == #[trigger] (gone + kept)
                &&& w.text == left + kept
                &&& right.len() > 0 ==> gone.len() > 0 && text::size(gone) == (if grapheme_offsets(
                    right,
                ).len() == 1 {
                    text::size(right) as int
                } else {
                    grapheme_offsets(right)[1] as int
                })
            },
{
    lemma_at(v.text, left, right);
    let capacity = choose|capacity: nat|
        text::size(w.text) <= capacity && #[trigger] pressed_beside(v, key, r, w, capacity);
    if key.code is Backspace {
        let from = cluster_before(v.text, v.cursor);
        if left.len() == 0 {
            assert(left =~= seq![]);
            assert(text::size(seq![]) == 0);
        }
        text::lemma_boundary_ends(left);
        text::lemma_boundary_split(left, from);
        let kept = left.take(text::fit(left, from) as int);
        let gone = left.skip(text::fit(left, from) as int);
        assert(left =~= kept + gone);
        text::lemma_size_concat(kept, gone);
        assert(v.text =~= kept + gone + right);
        assert(edited_beside(v, from, v.cursor, seq![], w, capacity));
        assert(edited(v, from, v.cursor, seq![], w));
        law_edited(v, kept, gone, right, seq![], w);
        assert(kept + seq![] + right =~= kept + right);
        if gone.len() == 0 {
            assert(gone =~= seq![]);
            assert(text::size(seq![]) == 0);
        }
        assert(left == kept + gone);
    } else {
        let to = cluster_after(v.text, v.cursor);
        let n = to - v.cursor;
        text::lemma_boundary_ends(right);
        text::lemma_boundary_split(right, n);
        let gone = right.take(text::fit(right, n) as int);
        let kept = right.skip(text::fit(right, n) as int);
        assert(right =~= gone + kept);
        text::lemma_size_concat(left, gone);
        assert(v.text =~= left + gone + kept);
        assert(edited_beside(v, v.cursor, to, seq![], w, capacity));
        assert(edited(v, v.cursor, to, seq![], w));
        law_edited(v, left, gone, kept, seq![], w);
        assert(left + seq![] + kept =~= left + kept);
        text::lemma_size_len(right);
        if gone.len() == 0 {
            assert(gone =~= seq![]);
            assert(text::size(seq![]) == 0);
        }
        assert(right == gone + kept);
    }
}

/// Control and Z takes an edit back, and Alt and Z, or Control, Shift and Z, does it again.
pub proof fn law_undo_keys(
    v: EditorView,
    from: int,
    to: int,
    value: Seq<char>,
    w: EditorView,
    back: KeyEvent,
    r: Result<(), &'static str>,
    x: EditorView,
    again: KeyEvent,
    q: Result<(), &'static str>,
    y: EditorView,
)
    requires
        v.valid(),
        0 <= from <= to,
        text::boundary(v.text, from),
        text::boundary(v.text, to),
        edited(v, from, to, value, w),
        v.between(from, to) != value,
        w.history.undo.len() > 0,
        back.code == KeyCode::Char('z') || back.code == KeyCode::Char('Z'),
        back.control && !back.alt && !back.shift,
        pressed(w, back, r, x),
        again.code == KeyCode::Char('z') || again.code == KeyCode::Char('Z'),
        again.alt || (again.control && again.shift),
        pressed(x, again, q, y),
    ensures
        r is Ok,
        q is Ok,
        x.text == v.text,
        x.cursor == v.cursor,
        x.history.redo.len() > 0 ==> y.text == w.text && y.cursor == w.cursor,
{
    let capacity = choose|capacity: nat|
        text::size(x.text) <= capacity && #[trigger] pressed_beside(w, back, r, x, capacity);
    assert(travelled_beside(w, false, x, capacity));
    assert(travelled(w, false, x));
    law_undo_restores(v, from, to, value, w, x);
    let capacity = choose|capacity: nat|
        text::size(y.text) <= capacity && #[trigger] pressed_beside(x, again, q, y, capacity);
    assert(travelled_beside(x, true, y, capacity));
    assert(travelled(x, true, y));
    if x.history.redo.len() > 0 {
        law_redo_restores(v, from, to, value, w, x, y);
    }
}

} // verus!
