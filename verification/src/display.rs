//! Text that is safe to show on a terminal, and bounded pieces of it.
use vstd::prelude::*;
use vstd::string::*;
use crate::text;
use crate::text::{byte_len, char_len, is_control, split};


verus! {

/// A character that could move the cursor, change the terminal's state or reorder text:
/// a control character other than newline and tab, or a directional formatting character.
pub open spec fn unsafe_to_show(c: char) -> bool {
    let u = c as u32;
    ||| text::control(c) && c != '\n' && c != '\t'
    ||| u == 0x61c
    ||| 0x200e <= u <= 0x200f
    ||| 0x202a <= u <= 0x202e
    ||| 0x2066 <= u <= 0x2069
}

/// What the terminal shows in place of a character.
pub open spec fn shown(c: char) -> char {
    if unsafe_to_show(c) {
        '\u{fffd}'
    } else {
        c
    }
}

/// What the terminal shows in place of a text.
pub open spec fn shown_text(s: Seq<char>) -> Seq<char> {
    Seq::new(s.len(), |i: int| shown(s[i]))
}

/// Replaces a character that is not safe to show by the replacement character.
pub fn terminal_character(c: char) -> (r: char)
    ensures
        r == shown(c),
{
    let u: u32 = c as u32;
    if (is_control(c) && c != '\n' && c != '\t') || u == 0x61c || (0x200e <= u && u <= 0x200f) || (
    0x202a <= u && u <= 0x202e) || (0x2066 <= u && u <= 0x2069) {
        '\u{fffd}'
    } else {
        c
    }
}

/// Replaces each character that is not safe to show.
pub fn terminal_text(text: &str) -> (r: String)
    ensures
        r@ == shown_text(text@),
{
    let mut out = String::new();
    for c in it: text.chars()
        invariant
            it.seq() == text@,
            out@ == shown_text(text@.take(it.index() as int)),
    {
        out.push(terminal_character(c));
        proof {
            let i: int = it.index() as int;
            assert(out@ =~= shown_text(text@.take(i + 1)));
        }
    }
    proof {
        assert(text@.take(text@.len() as int) =~= text@);
    }
    out
}

/// Sanitising a text leaves nothing unsafe in it, keeps its length, and does nothing more when
/// it is applied again.
pub proof fn law_terminal_text(s: Seq<char>)
    ensures
        shown_text(s).len() == s.len(),
        forall|i: int| 0 <= i < s.len() ==> !unsafe_to_show(#[trigger] shown_text(s)[i]),
        forall|i: int|
            0 <= i < s.len() && !unsafe_to_show(s[i]) ==> #[trigger] shown_text(s)[i] == s[i],
        shown_text(shown_text(s)) == shown_text(s),
{
    assert(shown_text(shown_text(s)) =~= shown_text(s));
}

/// What is shown of a text has at most three bytes for each of its own.
pub proof fn lemma_shown_size(s: Seq<char>)
    ensures
        text::size(shown_text(s)) <= 3 * text::size(s),
    decreases s.len(),
{
    if s.len() > 0 {
        let w = s.drop_last();
        lemma_shown_size(w);
        text::lemma_size_push(w, s.last());
        text::lemma_size_push(shown_text(w), shown(s.last()));
        assert(w.push(s.last()) =~= s);
        assert(shown_text(s) =~= shown_text(w).push(shown(s.last())));
    } else {
        assert(shown_text(s) =~= s);
    }
}

/// The longest prefix of a text that has at most `maximum` bytes.
pub open spec fn prefix_within(s: Seq<char>, maximum: int) -> Seq<char> {
    s.take(text::fit(s, maximum) as int)
}

/// The byte offset of the last character boundary that is not past `maximum`.
pub fn floor_boundary(text: &str, maximum: usize) -> (at: usize)
    ensures
        at == text::size(prefix_within(text@, maximum as int)),
        at <= maximum,
        text::boundary(text@, at as int),
        text::fit(text@, at as int) == text::fit(text@, maximum as int),
{
    let total: usize = byte_len(text);
    let mut at: usize = 0;
    proof {
        assert(text@.take(0) =~= Seq::<char>::empty());
        text::lemma_fit(text@, maximum as int);
    }
    for c in it: text.chars()
        invariant
            it.seq() == text@,
            total == text::size(text@),
            at == text::size(text@.take(it.index() as int)),
            at <= maximum,
    {
        let n: usize = char_len(c);
        proof {
            let i: int = it.index() as int;
            assert(text@.take(i + 1) =~= text@.take(i).push(c));
            text::lemma_size_push(text@.take(i), c);
        }
        if n > maximum - at {
            proof {
                let i: int = it.index() as int;
                let k: int = text::fit(text@, maximum as int) as int;
                text::lemma_fit(text@, maximum as int);
                if k < i {
                    text::lemma_size_take_monotone(text@, k + 1, i);
                } else if i < k {
                    text::lemma_size_take_monotone(text@, i + 1, k);
                }
                assert(k == i);
                text::lemma_fit_exact(text@, i);
            }
            return at;
        }
        at += n;
    }
    proof {
        let n: int = text@.len() as int;
        let k: int = text::fit(text@, maximum as int) as int;
        text::lemma_fit(text@, maximum as int);
        if k < n {
            text::lemma_size_take_monotone(text@, k + 1, n);
        }
        text::lemma_fit_exact(text@, n);
    }
    at
}

/// The longest prefix of a text with at most `maximum` bytes.
pub fn bounded<'a>(text: &'a str, maximum: usize) -> (r: &'a str)
    ensures
        r@ == prefix_within(text@, maximum as int),
        text::size(r@) <= maximum,
{
    let at: usize = floor_boundary(text, maximum);
    split(text, at).0
}

/// A text that fits is kept whole, and one that does not loses less than one character's bytes.
pub proof fn law_bounded(s: Seq<char>, maximum: int)
    requires
        0 <= maximum,
    ensures
        text::size(prefix_within(s, maximum)) <= maximum,
        text::size(s) <= maximum ==> prefix_within(s, maximum) == s,
        text::size(s) > maximum ==> text::size(prefix_within(s, maximum)) > maximum - 4,
{
    let k: int = text::fit(s, maximum) as int;
    text::lemma_fit(s, maximum);
    if text::size(s) <= maximum {
        if k < s.len() {
            text::lemma_size_take_monotone(s, k + 1, s.len() as int);
            assert(s.take(s.len() as int) =~= s);
        }
        assert(s.take(k) =~= s);
    } else {
        if k == s.len() {
            assert(s.take(k) =~= s);
        }
        assert(s.take(k + 1) =~= s.take(k).push(s[k]));
        text::lemma_size_push(s.take(k), s[k]);
    }
}

/// The pieces of a text, each the longest that fits into `limit` bytes.
pub open spec fn pages_of(s: Seq<char>, limit: int) -> Seq<Seq<char>>
    decreases s.len(),
{
    let k = text::fit(s, limit);
    if s.len() == 0 || k == 0 || k > s.len() {
        seq![]
    } else {
        seq![s.take(k as int)] + pages_of(s.skip(k as int), limit)
    }
}

/// All pieces of a sequence one after another.
pub open spec fn flatten(pages: Seq<Seq<char>>) -> Seq<char>
    decreases pages.len(),
{
    if pages.len() == 0 {
        seq![]
    } else {
        pages[0] + flatten(pages.drop_first())
    }
}

/// The pages of a text hold exactly the text, each within the limit and none empty.
pub proof fn law_pages(s: Seq<char>, limit: int)
    requires
        4 <= limit,
    ensures
        flatten(pages_of(s, limit)) == s,
        forall|i: int|
            0 <= i < pages_of(s, limit).len() ==> 0 < text::size(#[trigger] pages_of(s, limit)[i])
                <= limit,
    decreases s.len(),
{
    if s.len() > 0 {
        let k: int = text::fit(s, limit) as int;
        text::lemma_fit(s, limit);
        let rest = pages_of(s.skip(k), limit);
        law_pages(s.skip(k), limit);
        let all = pages_of(s, limit);
        assert(all.drop_first() =~= rest);
        assert(s.take(k) + s.skip(k) =~= s);
        text::lemma_size_len(s.take(k));
        assert forall|i: int| 0 <= i < all.len() implies 0 < text::size(#[trigger] all[i]) <= limit by {
            if i > 0 {
                assert(all[i] == rest[i - 1]);
            }
        }
    }
}

/// Bytes of one page of a long help text.
pub const DETAIL_PAGE_BYTES: usize = 8192;

/// Cuts a text into pages of at most [`DETAIL_PAGE_BYTES`] bytes.
pub fn detail_pages(text: &str) -> (pages: Vec<String>)
    ensures
        text::views(pages@) == pages_of(text@, DETAIL_PAGE_BYTES as int),
{
    let mut pages: Vec<String> = Vec::new();
    let mut rest: &str = text;
    proof {
        assert(text::views(pages@) + pages_of(text@, DETAIL_PAGE_BYTES as int) =~= pages_of(
            text@,
            DETAIL_PAGE_BYTES as int,
        ));
    }
    while !rest.is_empty()
        invariant
            text::views(pages@) + pages_of(rest@, DETAIL_PAGE_BYTES as int) == pages_of(
                text@,
                DETAIL_PAGE_BYTES as int,
            ),
        decreases rest@.len(),
    {
        let at: usize = floor_boundary(rest, DETAIL_PAGE_BYTES);
        let (page, tail) = split(rest, at);
        let ghost before = text::views(pages@);
        let ghost whole = rest@;
        pages.push(page.to_owned());
        proof {
            text::lemma_fit(whole, DETAIL_PAGE_BYTES as int);
            assert(text::views(pages@) =~= before.push(page@));
            assert(pages_of(whole, DETAIL_PAGE_BYTES as int) == seq![page@] + pages_of(
                tail@,
                DETAIL_PAGE_BYTES as int,
            ));
            assert(before.push(page@) + pages_of(tail@, DETAIL_PAGE_BYTES as int) =~= before + (
            seq![page@] + pages_of(tail@, DETAIL_PAGE_BYTES as int)));
        }
        rest = tail;
    }
    proof {
        assert(text::views(pages@) + pages_of(rest@, DETAIL_PAGE_BYTES as int) =~= text::views(pages@));
    }
    pages
}

/// The characters that the terminal never gets: the escape that begins its sequences, the other
/// control characters but newline and tab, and those that reorder text. Printable ASCII, newline
/// and tab are shown as they are.
pub proof fn law_kept_from_terminal(c: char)
    ensures
        c == '\u{1b}' || c == '\u{9b}' || c == '\u{7}' || c == '\u{8}' || c == '\r' || c == '\u{0}' || c
            == '\u{7f}' || c == '\u{85}' ==> shown(c) == '\u{fffd}',
        (c as u32) < 0x20 && c != '\n' && c != '\t' ==> shown(c) == '\u{fffd}',
        0x7f <= (c as u32) <= 0x9f ==> shown(c) == '\u{fffd}',
        c == '\u{61c}' || c == '\u{200e}' || c == '\u{200f}' || c == '\u{202a}' || c == '\u{202e}' || c
            == '\u{2066}' || c == '\u{2069}' ==> shown(c) == '\u{fffd}',
        0x202a <= (c as u32) <= 0x202e || 0x2066 <= (c as u32) <= 0x2069 ==> shown(c) == '\u{fffd}',
        ' ' <= c <= '~' || c == '\n' || c == '\t' ==> shown(c) == c,
        0xa0 <= (c as u32) < 0x600 || 0x2100 <= (c as u32) ==> shown(c) == c,
        shown(c) == c || shown(c) == '\u{fffd}',
{
}

/// What is shown of a text is shown of its parts.
pub proof fn law_shown_by_parts(a: Seq<char>, b: Seq<char>)
    ensures
        shown_text(a + b) == shown_text(a) + shown_text(b),
{
    assert(shown_text(a + b) =~= shown_text(a) + shown_text(b));
}

/// What is kept of a text that is too long is its beginning, and one character more would not fit.
pub proof fn law_longest_prefix(s: Seq<char>, maximum: int)
    requires
        0 <= maximum,
    ensures
        ({
            let p = prefix_within(s, maximum);
            &&& p.len() <= s.len()
            &&& p == s.take(p.len() as int)
            &&& p.len() < s.len() ==> text::size(s.take(p.len() as int + 1)) > maximum
        }),
{
    text::lemma_fit(s, maximum);
}

} // verus!
