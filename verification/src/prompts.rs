//! The inputs that were submitted, to be recalled.
use std::collections::VecDeque;
use vstd::prelude::*;
use vstd::std_specs::vecdeque::*;
use vstd::string::*;
use crate::actions;
use crate::actions::{make_menu, no_items, push_item, Action, Menu};
use crate::display;
use crate::display::terminal_text;
use crate::editor;
use crate::editor::Editor;
use crate::text;
use crate::text::{
    byte_len, cat2, cat3, characters, collect, is_blank, same, starts_with, trim,
};

verus! {

/// The inputs that are kept.
pub const MAXIMUM_ENTRIES: usize = 100;

/// The bytes that are kept.
pub const MAXIMUM_BYTES: usize = 1048576;

/// A submitted input.
#[derive(Debug)]
pub struct Entry {
    pub id: u64,
    pub session: String,
    pub text: String,
}

/// What an [`Entry`] says.
#[verifier::ext_equal]
pub struct EntryView {
    pub id: u64,
    pub session: Seq<char>,
    pub text: Seq<char>,
}

impl View for Entry {
    type V = EntryView;

    open spec fn view(&self) -> EntryView {
        EntryView { id: self.id, session: self.session@, text: self.text@ }
    }
}

pub open spec fn entries_of(v: Seq<Entry>) -> Seq<EntryView> {
    Seq::new(v.len(), |i: int| v[i]@)
}

/// The bytes of inputs.
pub open spec fn bytes_of(v: Seq<EntryView>) -> nat
    decreases v.len(),
{
    if v.len() == 0 {
        0
    } else {
        bytes_of(v.drop_first()) + text::size(v[0].text)
    }
}

/// The last input of a conversation.
pub open spec fn latest(v: Seq<EntryView>, session: Seq<char>) -> Option<Seq<char>>
    decreases v.len(),
{
    if v.len() == 0 {
        None
    } else if v.last().session == session {
        Some(v.last().text)
    } else {
        latest(v.drop_last(), session)
    }
}

/// The newest inputs that leave room for one more of some bytes.
pub open spec fn making_room(v: Seq<EntryView>, need: nat) -> Seq<EntryView>
    decreases v.len(),
{
    if v.len() > 0 && (v.len() >= MAXIMUM_ENTRIES || bytes_of(v) + need > MAXIMUM_BYTES) {
        making_room(v.drop_first(), need)
    } else {
        v
    }
}

/// All inputs that are kept, and the number of the last one.
#[verifier::ext_equal]
pub struct PromptsView {
    pub entries: Seq<EntryView>,
    pub next: u64,
}

impl PromptsView {
    /// Whether an input is kept: not one of white space, too long, or the same as the last.
    pub open spec fn keeps(self, session: Seq<char>, s: Seq<char>) -> bool {
        text::trimmed(s).len() > 0 && text::size(s) <= MAXIMUM_BYTES && latest(
            self.entries,
            session,
        ) != Some(s) && self.next < u64::MAX
    }

    /// The inputs with one more, and as many of the old ones as fit.
    pub open spec fn remembering(self, session: Seq<char>, s: Seq<char>) -> PromptsView {
        if self.keeps(session, s) {
            let id = (self.next + 1) as u64;
            PromptsView {
                entries: making_room(self.entries, text::size(s)).push(
                    EntryView { id, session, text: s },
                ),
                next: id,
            }
        } else {
            self
        }
    }

    /// The bounds, that every number is one that was given, and that the numbers of the inputs
    /// ascend from the oldest to the newest.
    pub open spec fn valid(self) -> bool {
        &&& self.entries.len() <= MAXIMUM_ENTRIES
        &&& bytes_of(self.entries) <= MAXIMUM_BYTES
        &&& forall|i: int|
            0 <= i < self.entries.len() ==> (#[trigger] self.entries[i]).id <= self.next
        &&& forall|i: int, j: int|
            0 <= i < j < self.entries.len() ==> (#[trigger] self.entries[i]).id < (
            #[trigger] self.entries[j]).id
    }
}

proof fn lemma_bytes_push(v: Seq<EntryView>, e: EntryView)
    ensures
        bytes_of(v.push(e)) == bytes_of(v) + text::size(e.text),
    decreases v.len(),
{
    if v.len() == 0 {
        assert(v.push(e).drop_first() =~= Seq::<EntryView>::empty());
        assert(v =~= Seq::<EntryView>::empty());
    } else {
        assert(v.push(e).drop_first() =~= v.drop_first().push(e));
        lemma_bytes_push(v.drop_first(), e);
    }
}

/// The submitted inputs.
#[derive(Debug)]
pub struct Prompts {
    entries: VecDeque<Entry>,
    next: u64,
    bytes: usize,
}

impl View for Prompts {
    type V = PromptsView;

    closed spec fn view(&self) -> PromptsView {
        PromptsView { entries: entries_of(self.entries@), next: self.next }
    }
}

impl Default for Prompts {
    fn default() -> (r: Self)
        ensures
            r.wf(),
            r@ == (PromptsView { entries: seq![], next: 0 }),
    {
        let r = Prompts { entries: VecDeque::new(), next: 0, bytes: 0 };
        proof {
            assert(r@ =~= PromptsView { entries: seq![], next: 0 });
        }
        r
    }
}

/// The characters of a preview.
pub const PREVIEW_CHARACTERS: usize = 80;

/// A line break shown on one line.
pub open spec fn flattened(s: Seq<char>) -> Seq<char> {
    Seq::new(
        s.len(),
        |i: int|
            if s[i] == '\n' {
                '↵'
            } else {
                s[i]
            },
    )
}

/// What is shown of an input in a list.
pub open spec fn preview(s: Seq<char>) -> Seq<char> {
    flattened(
        display::shown_text(
            if s.len() <= PREVIEW_CHARACTERS {
                s
            } else {
                s.take(PREVIEW_CHARACTERS as int)
            },
        ),
    )
}

fn make_preview(s: &str) -> (r: String)
    ensures
        r@ == preview(s@),
{
    let v = characters(s);
    let end: usize = if v.len() <= PREVIEW_CHARACTERS {
        v.len()
    } else {
        PREVIEW_CHARACTERS
    };
    let head = collect(v.as_slice(), 0, end);
    proof {
        assert(head@ =~= if s@.len() <= PREVIEW_CHARACTERS {
            s@
        } else {
            s@.take(PREVIEW_CHARACTERS as int)
        });
    }
    let shown = terminal_text(head.as_str());
    let mut out = String::new();
    proof {
        assert(out@ =~= flattened(shown@.take(0)));
    }
    for c in it: shown.as_str().chars()
        invariant
            it.seq() == shown@,
            out@ == flattened(shown@.take(it.index() as int)),
    {
        proof {
            let i: int = it.index() as int;
            assert(flattened(shown@.take(i + 1)) =~= flattened(shown@.take(i)).push(
                if c == '\n' {
                    '↵'
                } else {
                    c
                },
            ));
        }
        if c == '\n' {
            out.push('↵');
        } else {
            out.push(c);
        }
    }
    proof {
        assert(shown@.take(shown@.len() as int) =~= shown@);
    }
    out
}

/// The entries of the list of a conversation, of the inputs from an index on, the last first.
pub open spec fn recall_items(v: Seq<EntryView>, session: Seq<char>, i: int) -> Seq<
    (Seq<char>, Action),
>
    decreases v.len() - i,
{
    if i < 0 || i >= v.len() {
        seq![]
    } else if v[i].session == session {
        recall_items(v, session, i + 1).push((preview(v[i].text), Action::RecallPrompt(v[i].id)))
    } else {
        recall_items(v, session, i + 1)
    }
}

/// The text of an input of a conversation, by its number.
pub open spec fn recalled(v: Seq<EntryView>, session: Seq<char>, id: u64) -> Option<Seq<char>>
    decreases v.len(),
{
    if v.len() == 0 {
        None
    } else if v[0].id == id && v[0].session == session {
        Some(v[0].text)
    } else {
        recalled(v.drop_first(), session, id)
    }
}

impl Prompts {
    pub closed spec fn wf(&self) -> bool {
        &&& self@.valid()
        &&& self.bytes == bytes_of(self@.entries)
    }

    /// The bounds on what is kept, and that the numbers of the inputs ascend: no two inputs have the
    /// same, and a newer one has the larger.
    pub proof fn law_bounds(&self)
        requires
            self.wf(),
        ensures
            forall|i: int, j: int|
                0 <= i < j < self@.entries.len() ==> (#[trigger] self@.entries[i]).id < (
                #[trigger] self@.entries[j]).id <= self@.next,
            self@.entries.len() <= MAXIMUM_ENTRIES,
            bytes_of(self@.entries) <= MAXIMUM_BYTES,
    {
    }

    pub fn len(&self) -> (n: usize)
        ensures
            n == self@.entries.len(),
    {
        self.entries.len()
    }

    /// The bytes that are kept.
    pub fn bytes(&self) -> (n: usize)
        requires
            self.wf(),
        ensures
            n == bytes_of(self@.entries),
    {
        self.bytes
    }

    /// The input at an index.
    pub fn entry(&self, i: usize) -> (r: &Entry)
        requires
            i < self@.entries.len(),
        ensures
            r@ == self@.entries[i as int],
    {
        &self.entries[i]
    }

    fn repeats(&self, session: &str, s: &str) -> (r: bool)
        ensures
            r == (latest(self@.entries, session@) == Some(s@)),
    {
        let ghost all = self@.entries;
        let mut i: usize = self.entries.len();
        proof {
            assert(all.take(all.len() as int) =~= all);
        }
        while i > 0
            invariant
                i <= self.entries@.len(),
                all == entries_of(self.entries@),
                latest(all.take(i as int), session@) == latest(all, session@),
            decreases i,
        {
            proof {
                assert(all.take(i as int).drop_last() =~= all.take(i as int - 1));
                assert(all.take(i as int).last() == all[i as int - 1]);
                assert(all[i as int - 1] == self.entries@[i as int - 1]@);
            }
            if same(self.entries[i - 1].session.as_str(), session) {
                return same(self.entries[i - 1].text.as_str(), s);
            }
            i -= 1;
        }
        false
    }

    /// Keeps an input, and drops the oldest ones that no longer fit.
    pub fn remember(&mut self, session: &str, s: &str)
        requires
            old(self).wf(),
        ensures
            final(self).wf(),
            final(self)@ == old(self)@.remembering(session@, s@),
    {
        let size: usize = byte_len(s);
        if trim(s).as_str().is_empty() || size > MAXIMUM_BYTES || self.repeats(session, s)
            || self.next == u64::MAX {
            return;
        }
        let ghost v = self@;
        while self.entries.len() > 0 && (self.entries.len() >= MAXIMUM_ENTRIES || self.bytes
            + size > MAXIMUM_BYTES)
            invariant
                size <= MAXIMUM_BYTES,
                size == text::size(s@),
                self.next == v.next,
                self.bytes == bytes_of(self@.entries),
                self.bytes <= MAXIMUM_BYTES,
                self@.entries.len() <= MAXIMUM_ENTRIES,
                self.next < u64::MAX,
                making_room(self@.entries, text::size(s@)) == making_room(
                    v.entries,
                    text::size(s@),
                ),
                forall|i: int|
                    0 <= i < self@.entries.len() ==> (#[trigger] self@.entries[i]).id
                        <= self.next,
                forall|i: int, j: int|
                    0 <= i < j < self@.entries.len() ==> (#[trigger] self@.entries[i]).id < (
                    #[trigger] self@.entries[j]).id,
            decreases self.entries@.len(),
        {
            let ghost before = self@.entries;
            let removed = self.entries.pop_front();
            proof {
                assert(self@.entries =~= before.drop_first());
                assert(before[0] == removed->0@);
                assert forall|i: int| 0 <= i < self@.entries.len() implies (
                #[trigger] self@.entries[i]).id <= self.next by {
                    assert(self@.entries[i] == before[i + 1]);
                }
                assert forall|i: int, j: int| 0 <= i < j < self@.entries.len() implies (
                #[trigger] self@.entries[i]).id < (#[trigger] self@.entries[j]).id by {
                    assert(self@.entries[i] == before[i + 1]);
                    assert(self@.entries[j] == before[j + 1]);
                }
            }
            if let Some(e) = removed {
                self.bytes = self.bytes - byte_len(e.text.as_str());
            }
        }
        let ghost kept = self@.entries;
        let id: u64 = self.next + 1;
        self.next = id;
        self.bytes = self.bytes + size;
        let e = Entry { id, session: session.to_owned(), text: s.to_owned() };
        let ghost view = e@;
        self.entries.push_back(e);
        proof {
            assert(self@.entries =~= kept.push(view));
            lemma_bytes_push(kept, view);
            assert(self@ =~= v.remembering(session@, s@));
            assert forall|i: int| 0 <= i < self@.entries.len() implies (
            #[trigger] self@.entries[i]).id <= self.next by {
                if i < kept.len() {
                    assert(self@.entries[i] == kept[i]);
                }
            }
            assert forall|i: int, j: int| 0 <= i < j < self@.entries.len() implies (
            #[trigger] self@.entries[i]).id < (#[trigger] self@.entries[j]).id by {
                assert(self@.entries[i] == kept[i]);
                if j < kept.len() {
                    assert(self@.entries[j] == kept[j]);
                }
            }
        }
    }

    /// The list of the inputs of a conversation, the last first.
    pub fn prompt_menu(&self, session: &str) -> (r: Menu)
        ensures
            r@ == actions::menu_of(
                "Submitted input history"@,
                recall_items(self@.entries, session@, 0),
            ),
    {
        let mut items = no_items();
        let mut i: usize = self.entries.len();
        while i > 0
            invariant
                i <= self.entries@.len(),
                actions::items_of(items@) == recall_items(self@.entries, session@, i as int),
            decreases i,
        {
            i -= 1;
            proof {
                assert(self@.entries[i as int] == self.entries@[i as int]@);
            }
            if same(self.entries[i].session.as_str(), session) {
                let id: u64 = self.entries[i].id;
                let label = make_preview(self.entries[i].text.as_str());
                push_item(&mut items, label, Action::RecallPrompt(id));
            }
        }
        make_menu("Submitted input history".to_owned(), items)
    }

    /// The text of an input of a conversation, by its number.
    pub fn recall(&self, session: &str, id: u64) -> (r: Option<String>)
        ensures
            match r {
                Some(s) => recalled(self@.entries, session@, id) == Some(s@),
                None => recalled(self@.entries, session@, id) is None,
            },
    {
        let ghost all = self@.entries;
        let mut i: usize = 0;
        proof {
            assert(all.skip(0) =~= all);
        }
        while i < self.entries.len()
            invariant
                i <= self.entries@.len(),
                all == entries_of(self.entries@),
                recalled(all.skip(i as int), session@, id) == recalled(all, session@, id),
            decreases self.entries@.len() - i,
        {
            proof {
                assert(all.skip(i as int)[0] == self.entries@[i as int]@);
                assert(all.skip(i as int).drop_first() =~= all.skip(i as int + 1));
            }
            if self.entries[i].id == id && same(self.entries[i].session.as_str(), session) {
                return Some(self.entries[i].text.clone());
            }
            i += 1;
        }
        None
    }
}

/// An input can be recalled as it was submitted, right after it was kept.
pub proof fn law_recall(v: PromptsView, session: Seq<char>, s: Seq<char>)
    requires
        v.valid(),
        v.keeps(session, s),
    ensures
        recalled(v.remembering(session, s).entries, session, v.remembering(session, s).next)
            == Some(s),
{
    let room = making_room(v.entries, text::size(s));
    let id = (v.next + 1) as u64;
    lemma_room(v.entries, text::size(s), v.next);
    lemma_recall_last(room, EntryView { id, session, text: s }, v.next);
}

proof fn lemma_room(v: Seq<EntryView>, need: nat, bound: u64)
    requires
        forall|i: int| 0 <= i < v.len() ==> (#[trigger] v[i]).id <= bound,
    ensures
        forall|i: int|
            0 <= i < making_room(v, need).len() ==> (#[trigger] making_room(v, need)[i]).id
                <= bound,
    decreases v.len(),
{
    if v.len() > 0 && (v.len() >= MAXIMUM_ENTRIES || bytes_of(v) + need > MAXIMUM_BYTES) {
        assert forall|i: int| 0 <= i < v.drop_first().len() implies (
        #[trigger] v.drop_first()[i]).id <= bound by {
            assert(v.drop_first()[i] == v[i + 1]);
        }
        lemma_room(v.drop_first(), need, bound);
        assert(making_room(v, need) == making_room(v.drop_first(), need));
    } else {
        assert(making_room(v, need) == v);
    }
}

proof fn lemma_recall_last(v: Seq<EntryView>, e: EntryView, bound: u64)
    requires
        forall|i: int| 0 <= i < v.len() ==> (#[trigger] v[i]).id <= bound,
        e.id > bound,
    ensures
        recalled(v.push(e), e.session, e.id) == Some(e.text),
    decreases v.len(),
{
    let w = v.push(e);
    if v.len() > 0 {
        assert(w[0] == v[0]);
        assert(w.drop_first() =~= v.drop_first().push(e));
        assert forall|i: int| 0 <= i < v.drop_first().len() implies (
        #[trigger] v.drop_first()[i]).id <= bound by {
            assert(v.drop_first()[i] == v[i + 1]);
        }
        lemma_recall_last(v.drop_first(), e, bound);
    } else {
        assert(w[0] == e);
    }
}

/// Whether what is typed can be completed to a command: one word that begins with a slash, with
/// the cursor at its end.
pub open spec fn completable(s: Seq<char>, cursor: int) -> bool {
    cursor == text::size(s) && text::begins(s, "/"@) && text::size(s) <= 256 && forall|i: int|
        0 <= i < s.len() ==> !text::blank(#[trigger] s[i])
}

pub fn is_completable(s: &str, cursor: usize) -> (r: bool)
    ensures
        r == completable(s@, cursor as int),
{
    if cursor != byte_len(s) || !starts_with(s, "/") || byte_len(s) > 256 {
        return false;
    }
    for c in it: s.chars()
        invariant
            it.seq() == s@,
            forall|i: int| 0 <= i < it.index() ==> !text::blank(#[trigger] s@[i]),
    {
        if is_blank(c) {
            proof {
                assert(text::blank(s@[it.index() as int]));
            }
            return false;
        }
    }
    true
}

/// What the commands that match what is typed lead to.
#[derive(Debug)]
pub enum Completions {
    /// The text has changed since.
    Stale,
    Unmatched,
    /// The text in place of what is typed.
    One(String),
    /// The entries of a menu.
    Many(Vec<String>),
}

/// Decides on the commands that match what was typed.
pub fn command_completions(typed: &str, s: &str, cursor: usize, names: &Vec<String>) -> (r:
    Completions)
    ensures
        if s@ != typed@ || cursor != text::size(typed@) {
            r is Stale
        } else if names@.len() == 0 {
            r is Unmatched
        } else if names@.len() == 1 {
            r matches Completions::One(t) && t@ == "/"@ + names@[0]@ + " "@
        } else {
            r matches Completions::Many(v) && v@.len() == names@.len() && forall|i: int|
                0 <= i < v@.len() ==> (#[trigger] v@[i])@ == "/"@ + names@[i]@
        },
{
    if !same(s, typed) || cursor != byte_len(typed) {
        return Completions::Stale;
    }
    if names.len() == 0 {
        return Completions::Unmatched;
    }
    if names.len() == 1 {
        return Completions::One(cat3("/", names[0].as_str(), " "));
    }
    let mut out: Vec<String> = Vec::new();
    let mut i: usize = 0;
    while i < names.len()
        invariant
            i <= names@.len(),
            out@.len() == i,
            forall|j: int| 0 <= j < i ==> (#[trigger] out@[j])@ == "/"@ + names@[j]@,
        decreases names@.len() - i,
    {
        out.push(cat2("/", names[i].as_str()));
        i += 1;
    }
    Completions::Many(out)
}

/// The names that begin with what follows the slash, of the first `n`.
pub open spec fn matching(names: Seq<Seq<char>>, prefix: Seq<char>, n: int) -> Seq<Seq<char>>
    decreases n,
{
    if n <= 0 {
        seq![]
    } else {
        let before = matching(names, prefix, n - 1);
        if text::begins(names[n - 1], prefix) {
            before.push(names[n - 1])
        } else {
            before
        }
    }
}

/// The names of commands that what is typed can be completed to.
pub fn complete_command(typed: &str, names: &Vec<String>) -> (r: Vec<String>)
    requires
        text::begins(typed@, "/"@),
    ensures
        text::views(r@) == matching(text::views(names@), typed@.skip(1), names@.len() as int),
{
    proof {
        reveal_strlit("/");
    }
    let chars = characters(typed);
    let prefix = collect(chars.as_slice(), 1, chars.len());
    let ghost all = text::views(names@);
    let mut out: Vec<String> = Vec::new();
    let mut i: usize = 0;
    proof {
        assert(prefix@ =~= typed@.skip(1));
        assert(text::views(out@) =~= Seq::<Seq<char>>::empty());
    }
    while i < names.len()
        invariant
            i <= names@.len(),
            all == text::views(names@),
            prefix@ == typed@.skip(1),
            text::views(out@) == matching(all, prefix@, i as int),
        decreases names@.len() - i,
    {
        let ghost before = text::views(out@);
        proof {
            assert(all[i as int] == names@[i as int]@);
        }
        if starts_with(names[i].as_str(), prefix.as_str()) {
            out.push(names[i].clone());
            proof {
                assert(text::views(out@) =~= before.push(all[i as int]));
            }
        }
        i += 1;
    }
    out
}

/// What is told once the whole text was replaced.
pub open spec fn replaced_told(r: Result<(), &'static str>, told: Seq<char>) -> Seq<char> {
    match r {
        Ok(_) => told,
        Err(e) => e@,
    }
}

/// Puts a command in place of what was typed, unless that has changed since. Says what is told.
pub fn insert_completion(e: &mut Editor, typed: &str, name: &str) -> (r: Option<
    Result<(), &'static str>,
>)
    requires
        old(e).wf(),
    ensures
        final(e).wf(),
        if old(e)@.text != typed@ || old(e)@.cursor != text::size(typed@) {
            r is None && final(e)@ == old(e)@
        } else {
            r matches Some(outcome) && editor::replaced(
                old(e)@,
                "/"@ + name@ + " "@,
                outcome,
                final(e)@,
            )
        },
{
    if !same(e.text(), typed) || e.cursor() != byte_len(typed) {
        return None;
    }
    let value = cat3("/", name, " ");
    Some(e.replace_text(value.as_str()))
}

/// What is told of a command that was put in place of what was typed.
pub fn completion_told(r: Result<(), &'static str>) -> (s: &'static str)
    ensures
        s@ == replaced_told(r, "Command completed · add arguments before sending"@),
{
    match r {
        Ok(_) => "Command completed · add arguments before sending",
        Err(e) => e,
    }
}

/// Puts an input that was kept in place of what is written. Says what is told.
pub fn recall_prompt(p: &Prompts, e: &mut Editor, session: &str, id: u64) -> (r: (
    &'static str,
    bool,
))
    requires
        p.wf(),
        old(e).wf(),
    ensures
        final(e).wf(),
        match recalled(p@.entries, session@, id) {
            None => {
                &&& r.0@ == "This history entry is no longer available"@
                &&& !r.1
                &&& final(e)@ == old(e)@
            },
            Some(s) => if r.1 {
                &&& editor::replaced(old(e)@, s, Ok(()), final(e)@)
                &&& r.0@ == "Input recalled · edit before sending · Ctrl+Z restores the draft"@
            } else {
                editor::replaced(old(e)@, s, Err(r.0), final(e)@)
            },
        },
{
    match p.recall(session, id) {
        None => ("This history entry is no longer available", false),
        Some(s) => {
            let replaced = e.replace_text(s.as_str());
            match replaced {
                Ok(done) => {
                    proof {
                        assert(done == ());
                    }
                    ("Input recalled · edit before sending · Ctrl+Z restores the draft", true)
                },
                Err(problem) => (problem, false),
            }
        },
    }
}

/// What is told of completions where none is put in: a notice, or the title of the menu of them.
pub fn completions_told(c: &Completions) -> (r: Option<&'static str>)
    ensures
        match c {
            Completions::Unmatched => r matches Some(s) && s@
                == "No registered Session command matches this prefix"@,
            Completions::Many(_) => r matches Some(s) && s@ == "Complete Session command"@,
            _ => r is None,
        },
{
    match c {
        Completions::Unmatched => Some("No registered Session command matches this prefix"),
        Completions::Many(_) => Some("Complete Session command"),
        _ => None,
    }
}

/// An input is kept unless it is blank, longer than 1 MiB, or the same as the last one of its
/// conversation.
pub proof fn law_keeps(v: PromptsView, session: Seq<char>, s: Seq<char>)
    requires
        v.next < u64::MAX,
    ensures
        v.keeps(session, s) <==> text::trimmed(s).len() > 0 && text::size(s) <= 1048576 && latest(
            v.entries,
            session,
        ) != Some(s),
        !v.keeps(session, s) ==> v.remembering(session, s) == v,
        v.keeps(session, s) ==> !v.remembering(session, s).keeps(session, s),
{
    if v.keeps(session, s) {
        let w = v.remembering(session, s);
        assert(w.entries.last().text == s);
        assert(latest(w.entries, session) == Some(s));
    }
}

/// The last input of a conversation is the newest one that it has, whatever the others have behind
/// it.
pub proof fn law_latest(v: Seq<EntryView>, e: EntryView, session: Seq<char>)
    ensures
        e.session == session ==> latest(v.push(e), session) == Some(e.text),
        e.session != session ==> latest(v.push(e), session) == latest(v, session),
        latest(seq![], session) is None,
{
    assert(v.push(e).drop_last() =~= v);
}

/// Room is made from the oldest on: what stays are the newest, fewer than a hundred and within 1 MiB
/// with the one that comes, and no more goes than has to.
pub proof fn law_making_room(v: Seq<EntryView>, need: nat) -> (n: int)
    requires
        need <= 1048576,
    ensures
        0 <= n <= v.len(),
        making_room(v, need) == v.skip(n),
        making_room(v, need).len() < 100,
        bytes_of(making_room(v, need)) + need <= 1048576,
        n > 0 ==> v.skip(n - 1).len() >= 100 || bytes_of(v.skip(n - 1)) + need > 1048576,
    decreases v.len(),
{
    if v.len() > 0 && (v.len() >= MAXIMUM_ENTRIES || bytes_of(v) + need > MAXIMUM_BYTES) {
        let rest = v.drop_first();
        let k = law_making_room(rest, need);
        assert(rest.skip(k) =~= v.skip(k + 1));
        if k > 0 {
            assert(rest.skip(k - 1) =~= v.skip(k));
        } else {
            assert(v.skip(0) =~= v);
        }
        k + 1
    } else {
        assert(v.skip(0) =~= v);
        0
    }
}

/// The bytes of the inputs are the sum of the bytes of each.
pub proof fn law_bytes(v: Seq<EntryView>, e: EntryView)
    ensures
        bytes_of(v.push(e)) == bytes_of(v) + text::size(e.text),
        bytes_of(seq![]) == 0,
{
    lemma_bytes_push(v, e);
}

/// An input that is kept is the newest, under a fresh number.
pub proof fn law_remembering(v: PromptsView, session: Seq<char>, s: Seq<char>)
    requires
        v.keeps(session, s),
    ensures
        v.remembering(session, s).entries.last() == (EntryView {
            id: (v.next + 1) as u64,
            session,
            text: s,
        }),
        v.remembering(session, s).next == v.next + 1,
{
}

/// The list of a conversation names its own inputs alone, the newest first.
pub proof fn law_newest_first(v: Seq<EntryView>, e: EntryView, session: Seq<char>)
    ensures
        e.session == session ==> recall_items(v.push(e), session, 0) == seq![
            (preview(e.text), Action::RecallPrompt(e.id)),
        ] + recall_items(v, session, 0),
        e.session != session ==> recall_items(v.push(e), session, 0) == recall_items(v, session, 0),
{
    lemma_newest_first(v, e, session, 0);
}

proof fn lemma_newest_first(v: Seq<EntryView>, e: EntryView, session: Seq<char>, i: int)
    requires
        0 <= i <= v.len(),
    ensures
        e.session == session ==> recall_items(v.push(e), session, i) == seq![
            (preview(e.text), Action::RecallPrompt(e.id)),
        ] + recall_items(v, session, i),
        e.session != session ==> recall_items(v.push(e), session, i) == recall_items(v, session, i),
    decreases v.len() - i,
{
    let w = v.push(e);
    let item = seq![(preview(e.text), Action::RecallPrompt(e.id))];
    if i < v.len() {
        lemma_newest_first(v, e, session, i + 1);
        assert(w[i] == v[i]);
        if e.session == session {
            assert(recall_items(w, session, i) =~= item + recall_items(v, session, i));
        }
    } else {
        assert(recall_items(w, session, i + 1) =~= seq![]);
        assert(recall_items(v, session, i) =~= seq![]);
        if e.session == session {
            assert(recall_items(w, session, i) =~= item + recall_items(v, session, i));
        }
    }
}

/// What is recalled is an input of that conversation with that number.
pub proof fn law_recalled(v: Seq<EntryView>, session: Seq<char>, id: u64)
    ensures
        match recalled(v, session, id) {
            Some(s) => exists|i: int|
                0 <= i < v.len() && #[trigger] v[i] == (EntryView { id, session, text: s }),
            None => forall|i: int|
                0 <= i < v.len() ==> (#[trigger] v[i]).id != id || v[i].session != session,
        },
    decreases v.len(),
{
    if v.len() > 0 {
        if v[0].id == id && v[0].session == session {
            assert(v[0] == (EntryView { id, session, text: v[0].text }));
        } else {
            let rest = v.drop_first();
            law_recalled(rest, session, id);
            match recalled(rest, session, id) {
                Some(s) => {
                    let i = choose|i: int|
                        0 <= i < rest.len() && #[trigger] rest[i] == (EntryView {
                            id,
                            session,
                            text: s,
                        });
                    assert(v[i + 1] == (EntryView { id, session, text: s }));
                },
                None => {
                    assert forall|i: int| 0 <= i < v.len() implies (#[trigger] v[i]).id != id
                        || v[i].session != session by {
                        if i > 0 {
                            assert(rest[i - 1] == v[i]);
                        }
                    }
                },
            }
        }
    }
}

/// What is listed of an input are its first 80 characters at most, on one line, and nothing that the
/// terminal must not get.
pub proof fn law_preview(s: Seq<char>)
    ensures
        preview(s).len() <= 80,
        s.len() <= 80 ==> preview(s).len() == s.len(),
        s.len() > 80 ==> preview(s) == preview(s.take(80)),
        forall|i: int| 0 <= i < preview(s).len() ==> #[trigger] preview(s)[i] != '\n',
        forall|i: int|
            0 <= i < preview(s).len() && ' ' <= s[i] <= '~' ==> #[trigger] preview(s)[i] == s[i],
        forall|i: int|
            0 <= i < preview(s).len() && s[i] == '\n' ==> #[trigger] preview(s)[i] == '↵',
{
    if s.len() > 80 {
        assert(s.take(80).len() == 80);
    }
}

/// A word behind a slash can be completed with the cursor at its end: one word, of at most 256
/// bytes.
pub proof fn law_completable(s: Seq<char>, cursor: int)
    ensures
        completable(s, cursor) <==> cursor == text::size(s) && s.len() > 0 && s[0] == '/'
            && text::size(s) <= 256 && forall|i: int|
            0 <= i < s.len() ==> !text::blank(#[trigger] s[i]),
{
    reveal_strlit("/");
    if s.len() > 0 {
        assert(s.take(1)[0] == s[0]);
        if s[0] == '/' {
            assert(s.take(1) =~= "/"@);
        }
    }
}

/// The names that match are those that begin with what was typed, in order.
pub proof fn law_matching(names: Seq<Seq<char>>, name: Seq<char>, prefix: Seq<char>)
    ensures
        ({
            let n = names.len() as int;
            let begins = prefix.len() <= name.len() && name.take(prefix.len() as int) == prefix;
            &&& begins ==> matching(names.push(name), prefix, n + 1) == matching(
                names,
                prefix,
                n,
            ).push(name)
            &&& !begins ==> matching(names.push(name), prefix, n + 1) == matching(names, prefix, n)
        }),
{
    lemma_matching(names, names.push(name), prefix, names.len() as int);
}

proof fn lemma_matching(v: Seq<Seq<char>>, w: Seq<Seq<char>>, prefix: Seq<char>, n: int)
    requires
        0 <= n <= v.len() <= w.len(),
        forall|i: int| 0 <= i < v.len() ==> v[i] == w[i],
    ensures
        matching(v, prefix, n) == matching(w, prefix, n),
    decreases n,
{
    if n > 0 {
        lemma_matching(v, w, prefix, n - 1);
    }
}

} // verus!
