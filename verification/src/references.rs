//! Frozen parts of other conversations that a draft refers to.
use vstd::prelude::*;
use vstd::string::*;
use crate::actions;
use crate::actions::{make_menu, no_items, push_item, Action, Detail, DetailView, Menu, MenuView};
use crate::display;
use crate::display::terminal_text;
use crate::number;
use crate::number::decimal;
use crate::text;
use crate::text::{byte_len, cat2, cat3, cat4};

verus! {

/// The references that a draft can have.
pub const MAXIMUM_REFERENCES: usize = 4;

/// The bytes of a page of a reference.
pub const PAGE_BYTES: u64 = 8192;

/// The bytes that all drafts may retain together.
pub const DRAFT_BYTES: usize = 4194304;

/// A frozen reference.
#[derive(Debug)]
pub struct Reference {
    /// The number that its owner knows it by.
    pub id: u64,
    /// The number of what it froze: the same for every reference to it.
    pub snapshot: u64,
    /// The conversation that it was taken from.
    pub source: String,
    /// The last record that it was captured through.
    pub through: u64,
    /// The records that it retains, and its bytes of text.
    pub first: u64,
    pub last: u64,
    pub text_bytes: u64,
    /// What it leaves out, if it does.
    pub omissions: Option<String>,
    /// The bytes that it takes in a draft.
    pub size: usize,
}

/// What a [`Reference`] says.
#[verifier::ext_equal]
pub struct ReferenceView {
    pub id: u64,
    pub snapshot: u64,
    pub source: Seq<char>,
    pub through: u64,
    pub first: u64,
    pub last: u64,
    pub text_bytes: u64,
    pub omissions: Option<Seq<char>>,
    pub size: usize,
}

impl View for Reference {
    type V = ReferenceView;

    open spec fn view(&self) -> ReferenceView {
        ReferenceView {
            id: self.id,
            snapshot: self.snapshot,
            source: self.source@,
            through: self.through,
            first: self.first,
            last: self.last,
            text_bytes: self.text_bytes,
            omissions: match self.omissions {
                Some(s) => Some(s@),
                None => None,
            },
            size: self.size,
        }
    }
}

pub open spec fn references_of(v: Seq<Reference>) -> Seq<ReferenceView> {
    Seq::new(v.len(), |i: int| v[i]@)
}

/// The bytes that references take together.
pub open spec fn total_size(v: Seq<ReferenceView>) -> int
    decreases v.len(),
{
    if v.len() == 0 {
        0
    } else {
        total_size(v.drop_last()) + v.last().size
    }
}

/// No references take less than nothing.
pub proof fn lemma_total_size(v: Seq<ReferenceView>)
    ensures
        total_size(v) >= 0,
    decreases v.len(),
{
    if v.len() > 0 {
        lemma_total_size(v.drop_last());
    }
}

/// Whether one of the references froze the same.
pub open spec fn holds(v: Seq<ReferenceView>, snapshot: u64) -> bool {
    exists|i: int| 0 <= i < v.len() && (#[trigger] v[i]).snapshot == snapshot
}

/// The references that froze something else.
pub open spec fn without(v: Seq<ReferenceView>, snapshot: u64) -> Seq<ReferenceView>
    decreases v.len(),
{
    if v.len() == 0 {
        seq![]
    } else {
        let before = without(v.drop_last(), snapshot);
        if v.last().snapshot == snapshot {
            before
        } else {
            before.push(v.last())
        }
    }
}

/// What is said of the references of a draft.
pub open spec fn status_of(count: nat) -> Seq<char> {
    if count == 0 {
        seq![]
    } else {
        number::digits(count) + " frozen references · Actions → Draft references"@
    }
}

/// A part of an input.
#[derive(Debug)]
pub enum Part {
    Text(String),
    /// The reference of a number.
    Reference(u64),
}

/// What a [`Part`] says.
pub enum PartView {
    Text(Seq<char>),
    Reference(u64),
}

impl View for Part {
    type V = PartView;

    open spec fn view(&self) -> PartView {
        match self {
            Part::Text(s) => PartView::Text(s@),
            Part::Reference(id) => PartView::Reference(*id),
        }
    }
}

pub open spec fn parts_of(v: Seq<Part>) -> Seq<PartView> {
    Seq::new(v.len(), |i: int| v[i]@)
}

/// The input that a text and references make: the text first, unless it is empty.
pub open spec fn input_of(s: Seq<char>, v: Seq<ReferenceView>) -> Seq<PartView> {
    (if s.len() > 0 {
        seq![PartView::Text(s)]
    } else {
        seq![]
    }) + Seq::new(v.len(), |i: int| PartView::Reference(v[i].id))
}

/// Why a reference cannot be added to a draft.
#[derive(Clone, Copy, Debug, PartialEq, Eq, Structural)]
pub enum AddError {
    /// Its owner says that it is not valid.
    Invalid,
    OtherTarget,
    Present,
    /// The owner of the conversation refuses the input with it.
    Refused,
    Full,
}

/// The references of a draft.
#[derive(Debug)]
pub struct References {
    items: Vec<Reference>,
}

impl View for References {
    type V = Seq<ReferenceView>;

    closed spec fn view(&self) -> Seq<ReferenceView> {
        references_of(self.items@)
    }
}

impl References {
    pub fn new() -> (r: References)
        ensures
            r@ == Seq::<ReferenceView>::empty(),
    {
        let r = References { items: Vec::new() };
        proof {
            assert(r@ =~= Seq::<ReferenceView>::empty());
        }
        r
    }

    pub fn len(&self) -> (n: usize)
        ensures
            n == self@.len(),
    {
        self.items.len()
    }

    /// Whether the same was frozen already.
    pub fn contains(&self, snapshot: u64) -> (r: bool)
        ensures
            r == holds(self@, snapshot),
    {
        let mut i: usize = 0;
        while i < self.items.len()
            invariant
                i <= self.items@.len(),
                forall|j: int| 0 <= j < i ==> (#[trigger] self@[j]).snapshot != snapshot,
            decreases self.items@.len() - i,
        {
            if self.items[i].snapshot == snapshot {
                proof {
                    assert(self@[i as int].snapshot == snapshot);
                }
                return true;
            }
            i += 1;
        }
        false
    }

    /// The bytes that the references take, as far as they can be counted.
    pub fn bytes(&self) -> (n: usize)
        ensures
            n == (if total_size(self@) <= usize::MAX {
                total_size(self@)
            } else {
                usize::MAX as int
            }),
    {
        let mut n: usize = 0;
        let mut i: usize = 0;
        proof {
            assert(self@.take(0) =~= Seq::<ReferenceView>::empty());
        }
        while i < self.items.len()
            invariant
                i <= self.items@.len(),
                n == (if total_size(self@.take(i as int)) <= usize::MAX {
                    total_size(self@.take(i as int))
                } else {
                    usize::MAX as int
                }),
            decreases self.items@.len() - i,
        {
            proof {
                assert(self@.take(i as int + 1).drop_last() =~= self@.take(i as int));
                assert(self@.take(i as int + 1).last() == self.items@[i as int]@);
            }
            n = n.saturating_add(self.items[i].size);
            i += 1;
        }
        proof {
            assert(self@.take(i as int) =~= self@);
        }
        n
    }

    /// What is said of the references.
    pub fn status(&self) -> (r: String)
        ensures
            r@ == status_of(self@.len()),
    {
        if self.items.len() == 0 {
            let r = String::new();
            proof {
                assert(r@ =~= status_of(0));
            }
            r
        } else {
            cat2(
                decimal(self.items.len() as u64).as_str(),
                " frozen references · Actions → Draft references",
            )
        }
    }

    /// The input that a text and the references make.
    pub fn reference_input(&self, s: &str) -> (r: Vec<Part>)
        ensures
            parts_of(r@) == input_of(s@, self@),
    {
        let mut out: Vec<Part> = Vec::new();
        if !s.is_empty() {
            out.push(Part::Text(s.to_owned()));
        }
        let ghost head = parts_of(out@);
        let ghost tail = Seq::new(self@.len(), |i: int| PartView::Reference(self@[i].id));
        let mut i: usize = 0;
        proof {
            assert(head =~= (if s@.len() > 0 {
                seq![PartView::Text(s@)]
            } else {
                seq![]
            }));
            assert(head =~= head + tail.take(0));
        }
        while i < self.items.len()
            invariant
                i <= self.items@.len(),
                tail == Seq::new(self@.len(), |i: int| PartView::Reference(self@[i].id)),
                parts_of(out@) == head + tail.take(i as int),
            decreases self.items@.len() - i,
        {
            let ghost before = parts_of(out@);
            out.push(Part::Reference(self.items[i].id));
            proof {
                assert(self@[i as int] == self.items@[i as int]@);
                assert(parts_of(out@) =~= before.push(tail[i as int]));
                assert(head + tail.take(i as int + 1) =~= before.push(tail[i as int]));
            }
            i += 1;
        }
        proof {
            assert(tail.take(i as int) =~= tail);
        }
        out
    }

    /// Adds a reference, unless it is not valid, belongs elsewhere, is there already, is refused
    /// with the rest of the input, or does not fit. `retained` is what all drafts retain.
    pub fn add_reference(
        &mut self,
        reference: Reference,
        valid: bool,
        same_target: bool,
        accepted: bool,
        retained: usize,
    ) -> (r: Result<(), AddError>)
        ensures
            r == (if !valid {
                Err::<(), AddError>(AddError::Invalid)
            } else if !same_target {
                Err(AddError::OtherTarget)
            } else if holds(old(self)@, reference@.snapshot) {
                Err(AddError::Present)
            } else if !accepted {
                Err(AddError::Refused)
            } else if retained + reference@.size > DRAFT_BYTES {
                Err(AddError::Full)
            } else {
                Ok(())
            }),
            final(self)@ == (if r is Ok {
                old(self)@.push(reference@)
            } else {
                old(self)@
            }),
    {
        if !valid {
            return Err(AddError::Invalid);
        }
        if !same_target {
            return Err(AddError::OtherTarget);
        }
        if self.contains(reference.snapshot) {
            return Err(AddError::Present);
        }
        if !accepted {
            return Err(AddError::Refused);
        }
        if retained.saturating_add(reference.size) > DRAFT_BYTES {
            return Err(AddError::Full);
        }
        let ghost v = self@;
        let ghost view = reference@;
        self.items.push(reference);
        proof {
            assert(self@ =~= v.push(view));
        }
        Ok(())
    }

    /// Takes out what froze the same.
    pub fn remove(&mut self, snapshot: u64)
        ensures
            final(self)@ == without(old(self)@, snapshot),
    {
        let ghost v = self@;
        let mut rest: Vec<Reference> = Vec::new();
        std::mem::swap(&mut rest, &mut self.items);
        let ghost all = references_of(rest@);
        let ghost n = rest@.len();
        let mut kept: Vec<Reference> = Vec::new();
        proof {
            assert(all.take(0) =~= Seq::<ReferenceView>::empty());
            assert(all.skip(0) =~= all);
            assert(references_of(kept@) =~= Seq::<ReferenceView>::empty());
        }
        while rest.len() > 0
            invariant
                rest@.len() <= n,
                all.len() == n,
                references_of(rest@) == all.skip(n - rest@.len()),
                references_of(kept@) == without(all.take(n - rest@.len()), snapshot),
            decreases rest@.len(),
        {
            let ghost before = references_of(kept@);
            let ghost left = references_of(rest@);
            let ghost i = n - rest@.len();
            let item = rest.remove(0);
            proof {
                assert(left[0] == item@);
                assert(all[i] == left[0]);
                assert(references_of(rest@) =~= left.drop_first());
                assert(left.drop_first() =~= all.skip(i + 1));
                assert(all.take(i + 1).drop_last() =~= all.take(i));
            }
            if item.snapshot != snapshot {
                let ghost view = item@;
                kept.push(item);
                proof {
                    assert(references_of(kept@) =~= before.push(view));
                }
            }
        }
        proof {
            assert(all.take(n as int) =~= all);
        }
        self.items = kept;
    }

    /// The menu of the references of a draft, and of capturing one more while there is room.
    pub open spec fn listed(v: Seq<ReferenceView>, n: int) -> Seq<(Seq<char>, Action)>
        decreases n,
    {
        if n <= 0 {
            seq![]
        } else {
            References::listed(v, n - 1).push(
                (
                    v[n - 1].source + " · captured through record "@ + number::digits(
                        v[n - 1].through as nat,
                    ) + (if v[n - 1].omissions is Some {
                        " · shortened"@
                    } else {
                        ""@
                    }),
                    Action::PreviewReference { reference: v[n - 1].id, offset: 0 },
                ),
            )
        }
    }

    pub open spec fn menu_items(v: Seq<ReferenceView>) -> Seq<(Seq<char>, Action)> {
        if v.len() < MAXIMUM_REFERENCES {
            References::listed(v, v.len() as int).push(
                ("Capture from recent session…"@, Action::ReferenceSources(None)),
            )
        } else {
            References::listed(v, v.len() as int)
        }
    }

    pub fn menu(&self) -> (r: Menu)
        ensures
            r@ == actions::menu_of("Draft references"@, References::menu_items(self@)),
    {
        let mut items = no_items();
        let mut i: usize = 0;
        while i < self.items.len()
            invariant
                i <= self.items@.len(),
                actions::items_of(items@) == References::listed(self@, i as int),
            decreases self.items@.len() - i,
        {
            proof {
                assert(self@[i as int] == self.items@[i as int]@);
            }
            let label = cat4(
                self.items[i].source.as_str(),
                " · captured through record ",
                decimal(self.items[i].through).as_str(),
                if self.items[i].omissions.is_some() {
                    " · shortened"
                } else {
                    ""
                },
            );
            push_item(
                &mut items,
                label,
                Action::PreviewReference { reference: self.items[i].id, offset: 0 },
            );
            i += 1;
        }
        if self.items.len() < MAXIMUM_REFERENCES {
            push_item(
                &mut items,
                "Capture from recent session…".to_owned(),
                Action::ReferenceSources(None),
            );
        }
        make_menu("Draft references".to_owned(), items)
    }
}

/// A reference that is taken out again after it was added leaves the draft as it was.
pub proof fn law_add_remove(v: Seq<ReferenceView>, r: ReferenceView)
    requires
        !holds(v, r.snapshot),
    ensures
        without(v.push(r), r.snapshot) == v,
    decreases v.len(),
{
    assert(v.push(r).drop_last() =~= v);
    lemma_without_absent(v, r.snapshot);
}

proof fn lemma_without_absent(v: Seq<ReferenceView>, snapshot: u64)
    requires
        !holds(v, snapshot),
    ensures
        without(v, snapshot) == v,
    decreases v.len(),
{
    if v.len() > 0 {
        let w = v.drop_last();
        assert(!holds(w, snapshot)) by {
            if holds(w, snapshot) {
                let i = choose|i: int| 0 <= i < w.len() && (#[trigger] w[i]).snapshot == snapshot;
                assert(v[i].snapshot == snapshot);
            }
        }
        lemma_without_absent(w, snapshot);
        assert(v[v.len() - 1].snapshot != snapshot);
        assert(w.push(v.last()) =~= v);
    } else {
        assert(without(v, snapshot) =~= v);
    }
}

/// A page of the text of a reference.
#[derive(Debug)]
pub struct ReferencePage {
    pub text: String,
    pub offset: u64,
    pub next_offset: u64,
    pub has_more: bool,
}

/// What a page of a reference shows.
pub open spec fn reference_text(r: ReferenceView, s: Seq<char>) -> Seq<char> {
    "Reference "@ + r.source + "\nCaptured through record "@ + number::digits(r.through as nat)
        + " · retained records "@ + number::digits(r.first as nat) + ".."@ + number::digits(
        r.last as nat,
    ) + " · "@ + number::digits(r.text_bytes as nat) + " bytes\nOmissions: "@ + (match r.omissions {
        Some(o) => o,
        None => "none"@,
    }) + "\n\n"@ + display::shown_text(s)
}

/// What can be done with a reference: take it out of the draft, or add it while there is room.
pub open spec fn reference_actions(r: ReferenceView, v: Seq<ReferenceView>) -> Seq<
    (Seq<char>, Action),
> {
    if holds(v, r.snapshot) {
        seq![("Remove from draft"@, Action::RemoveReference(r.snapshot))]
    } else if v.len() < MAXIMUM_REFERENCES {
        seq![("Add frozen reference to draft"@, Action::AddReference(r.id))]
    } else {
        seq![]
    }
}

pub open spec fn back_by(offset: u64, n: u64) -> u64 {
    if offset > n {
        (offset - n) as u64
    } else {
        0
    }
}

/// Shows a page of a reference.
pub fn show_reference(r: &Reference, page: &ReferencePage, draft: &References) -> (d: Detail)
    ensures
        d@ == (DetailView {
            text: reference_text(r@, page.text@),
            previous: if page.offset > 0 {
                Some(
                    Action::PreviewReference {
                        reference: r.id,
                        offset: back_by(page.offset, PAGE_BYTES),
                    },
                )
            } else {
                None
            },
            next: if page.has_more {
                Some(Action::PreviewReference { reference: r.id, offset: page.next_offset })
            } else {
                None
            },
            actions: Some(
                actions::menu_of("Reference actions"@, reference_actions(r@, draft@)),
            ),
            info: "←/→ pages · ↑/↓ scroll · Enter actions · Esc returns to draft"@,
        }),
{
    let mut t: String = cat4(
        "Reference ",
        r.source.as_str(),
        "\nCaptured through record ",
        decimal(r.through).as_str(),
    );
    t.append(" · retained records ");
    t.append(decimal(r.first).as_str());
    t.append("..");
    t.append(decimal(r.last).as_str());
    t.append(" · ");
    t.append(decimal(r.text_bytes).as_str());
    t.append(" bytes\nOmissions: ");
    match &r.omissions {
        Some(o) => {
            t.append(o.as_str());
        },
        None => {
            t.append("none");
        },
    }
    t.append("\n\n");
    t.append(terminal_text(page.text.as_str()).as_str());
    let mut items = no_items();
    if draft.contains(r.snapshot) {
        push_item(
            &mut items,
            "Remove from draft".to_owned(),
            Action::RemoveReference(r.snapshot),
        );
    } else if draft.len() < MAXIMUM_REFERENCES {
        push_item(
            &mut items,
            "Add frozen reference to draft".to_owned(),
            Action::AddReference(r.id),
        );
    }
    proof {
        assert(actions::items_of(items@) =~= reference_actions(r@, draft@));
    }
    let d = Detail {
        text: t,
        previous: if page.offset > 0 {
            Some(
                Action::PreviewReference {
                    reference: r.id,
                    offset: page.offset.saturating_sub(PAGE_BYTES),
                },
            )
        } else {
            None
        },
        next: if page.has_more {
            Some(Action::PreviewReference { reference: r.id, offset: page.next_offset })
        } else {
            None
        },
        actions: Some(make_menu("Reference actions".to_owned(), items)),
        info: "←/→ pages · ↑/↓ scroll · Enter actions · Esc returns to draft".to_owned(),
    };
    proof {
        assert(d@.text =~= reference_text(r@, page.text@));
    }
    d
}

/// A conversation in a list: its number, its name and its directory.
#[derive(Debug)]
pub struct Listed {
    pub id: u64,
    pub name: String,
    pub directory: String,
}

/// The entries of a list of conversations, each with what is done to it.
pub open spec fn session_entries(v: Seq<Listed>, capture: bool, n: int) -> Seq<(Seq<char>, Action)>
    decreases n,
{
    if n <= 0 {
        seq![]
    } else {
        session_entries(v, capture, n - 1).push(
            (
                v[n - 1].name@ + " · "@ + v[n - 1].directory@,
                if capture {
                    Action::CaptureReference(v[n - 1].id)
                } else {
                    Action::Attach(v[n - 1].id)
                },
            ),
        )
    }
}

fn session_items(v: &Vec<Listed>, capture: bool) -> (items: Vec<(String, Action)>)
    ensures
        actions::items_of(items@) == session_entries(v@, capture, v@.len() as int),
{
    let mut items = no_items();
    let mut i: usize = 0;
    while i < v.len()
        invariant
            i <= v@.len(),
            actions::items_of(items@) == session_entries(v@, capture, i as int),
        decreases v@.len() - i,
    {
        let label = cat3(v[i].name.as_str(), " · ", v[i].directory.as_str());
        push_item(
            &mut items,
            label,
            if capture {
                Action::CaptureReference(v[i].id)
            } else {
                Action::Attach(v[i].id)
            },
        );
        i += 1;
    }
    items
}

/// The menu of conversations to capture from. `next` names where the list goes on.
pub fn source_menu(v: &Vec<Listed>, has_more: bool, next: Option<u64>) -> (r: Menu)
    ensures
        r@ == actions::menu_of(
            "Capture reference · select source"@,
            if has_more {
                session_entries(v@, true, v@.len() as int).push(
                    ("More sessions…"@, Action::ReferenceSources(next)),
                )
            } else {
                session_entries(v@, true, v@.len() as int)
            },
        ),
{
    let mut items = session_items(v, true);
    if has_more {
        push_item(&mut items, "More sessions…".to_owned(), Action::ReferenceSources(next));
    }
    make_menu("Capture reference · select source".to_owned(), items)
}

/// The menu of recent conversations.
pub fn recent_menu(v: &Vec<Listed>, has_more: bool) -> (r: Menu)
    ensures
        r@ == actions::menu_of(
            "Recent sessions"@,
            if has_more {
                session_entries(v@, false, v@.len() as int).push(
                    ("More sessions…"@, Action::MoreRecent),
                )
            } else {
                session_entries(v@, false, v@.len() as int)
            },
        ),
{
    let mut items = session_items(v, false);
    if has_more {
        push_item(&mut items, "More sessions…".to_owned(), Action::MoreRecent);
    }
    make_menu("Recent sessions".to_owned(), items)
}

/// The conversations of a page to capture from.
pub const SOURCE_LIMIT: usize = 16;

/// What is told of a reference that cannot be added. What its owner says of it goes in `reason`.
pub open spec fn add_sentence(e: AddError, reason: Seq<char>) -> Seq<char> {
    match e {
        AddError::Invalid | AddError::Refused => reason,
        AddError::OtherTarget => "Reference belongs to a different target session"@,
        AddError::Present => "Reference is already in this draft"@,
        AddError::Full => "Draft retention is full; remove content before adding a reference"@,
    }
}

/// What is told once a reference was offered to a draft, and whether what is open closes.
pub fn add_told(r: Result<(), AddError>, reason: &str) -> (t: (String, bool))
    ensures
        match r {
            Ok(_) => t.0@ == "Frozen reference added; draft retained"@ && t.1,
            Err(e) => t.0@ == add_sentence(e, reason@) && !t.1,
        },
{
    match r {
        Ok(_) => ("Frozen reference added; draft retained".to_owned(), true),
        Err(AddError::Invalid) | Err(AddError::Refused) => (reason.to_owned(), false),
        Err(AddError::OtherTarget) => (
            "Reference belongs to a different target session".to_owned(),
            false,
        ),
        Err(AddError::Present) => ("Reference is already in this draft".to_owned(), false),
        Err(AddError::Full) => (
            "Draft retention is full; remove content before adding a reference".to_owned(),
            false,
        ),
    }
}

/// What an action on references comes to.
#[derive(Debug)]
pub enum Step {
    /// A menu is shown.
    Menu(Menu),
    /// A page of conversations is read.
    Sources { after: Option<u64>, limit: usize },
    /// A conversation is captured, and its first page read, while a text says so.
    Capture { source: u64, offset: u64, bytes: u64, opened: &'static str },
    /// A page of a reference is read, while a text says so.
    Preview { reference: u64, offset: u64, bytes: u64, opened: &'static str },
    /// A reference is offered to the draft.
    Add(u64),
    /// What is open closes, and a text is told.
    Removed(&'static str),
    /// The action is not one on references.
    Other,
}

impl References {
    /// Does what is asked of the references of a draft.
    pub fn reference_action(&mut self, a: Action) -> (r: Step)
        ensures
            final(self)@ == (match a {
                Action::RemoveReference(snapshot) => without(old(self)@, snapshot),
                _ => old(self)@,
            }),
            match a {
                Action::References => r matches Step::Menu(m) && m@ == actions::menu_of(
                    "Draft references"@,
                    References::menu_items(old(self)@),
                ),
                Action::ReferenceSources(from) => r matches Step::Sources { after, limit } && after
                    == from && limit == SOURCE_LIMIT,
                Action::CaptureReference(id) => {
                    &&& r matches Step::Capture { source, offset, bytes, opened }
                    &&& source == id && offset == 0 && bytes == PAGE_BYTES
                    &&& opened@ == "Capturing conversation…"@
                },
                Action::PreviewReference { reference: id, offset: from } => {
                    &&& r matches Step::Preview { reference, offset, bytes, opened }
                    &&& reference == id && offset == from && bytes == PAGE_BYTES
                    &&& opened@ == "Reading frozen reference…"@
                },
                Action::AddReference(id) => r matches Step::Add(reference) && reference == id,
                Action::RemoveReference(_) => r matches Step::Removed(told) && told@
                    == "Reference removed from draft"@,
                _ => r is Other,
            },
    {
        match a {
            Action::References => Step::Menu(self.menu()),
            Action::ReferenceSources(after) => Step::Sources { after, limit: SOURCE_LIMIT },
            Action::CaptureReference(source) => Step::Capture {
                source,
                offset: 0,
                bytes: PAGE_BYTES,
                opened: "Capturing conversation…",
            },
            Action::PreviewReference { reference, offset } => Step::Preview {
                reference,
                offset,
                bytes: PAGE_BYTES,
                opened: "Reading frozen reference…",
            },
            Action::AddReference(reference) => Step::Add(reference),
            Action::RemoveReference(snapshot) => {
                self.remove(snapshot);
                Step::Removed("Reference removed from draft")
            },
            _ => Step::Other,
        }
    }
}

/// A draft has room for four references: one more can be captured exactly while it has fewer.
pub proof fn law_room_for_four(v: Seq<ReferenceView>)
    ensures
        ({
            let items = References::menu_items(v);
            let capture = ("Capture from recent session…"@, Action::ReferenceSources(None));
            &&& v.len() < 4 ==> items.len() == v.len() + 1 && items.last() == capture
            &&& v.len() >= 4 ==> items.len() == v.len()
            &&& forall|i: int|
                0 <= i < v.len() ==> (#[trigger] items[i]).1 == (Action::PreviewReference {
                    reference: v[i].id,
                    offset: 0,
                })
        }),
{
    lemma_listed(v, v.len() as int);
}

proof fn lemma_listed(v: Seq<ReferenceView>, n: int)
    requires
        0 <= n <= v.len(),
    ensures
        References::listed(v, n).len() == n,
        forall|i: int|
            0 <= i < n ==> (#[trigger] References::listed(v, n)[i]).1 == (Action::PreviewReference {
                reference: v[i].id,
                offset: 0,
            }),
    decreases n,
{
    if n > 0 {
        lemma_listed(v, n - 1);
    }
}

/// A reference that is in the draft can be taken out of it and not be added again; any other can be
/// added while there are fewer than four.
pub proof fn law_reference_choices(r: ReferenceView, v: Seq<ReferenceView>)
    ensures
        ({
            let items = reference_actions(r, v);
            let inside = exists|i: int|
                0 <= i < v.len() && (#[trigger] v[i]).snapshot == r.snapshot;
            &&& inside ==> items == seq![
                ("Remove from draft"@, Action::RemoveReference(r.snapshot)),
            ]
            &&& !inside && v.len() < 4 ==> items == seq![
                ("Add frozen reference to draft"@, Action::AddReference(r.id)),
            ]
            &&& !inside && v.len() >= 4 ==> items.len() == 0
        }),
{
}

/// Taking a reference out leaves every other, and none that froze the same.
pub proof fn law_without(v: Seq<ReferenceView>, snapshot: u64, r: ReferenceView)
    ensures
        without(v, snapshot).contains(r) <==> v.contains(r) && r.snapshot != snapshot,
    decreases v.len(),
{
    if v.len() > 0 {
        let front = v.drop_last();
        let before = without(front, snapshot);
        law_without(front, snapshot, r);
        let w = before.push(v.last());
        assert(v[v.len() - 1] == v.last());
        assert(w[w.len() - 1] == v.last());
        if front.contains(r) {
            assert(v[front.index_of(r)] == r);
        }
        if v.contains(r) && r != v.last() {
            assert(front[v.index_of(r)] == r);
        }
        if before.contains(r) {
            assert(w[before.index_of(r)] == r);
        }
        if w.contains(r) && r != v.last() {
            assert(before[w.index_of(r)] == r);
        }
    }
}

/// References take the sum of what each takes.
pub proof fn law_total_size(v: Seq<ReferenceView>, r: ReferenceView)
    ensures
        total_size(v.push(r)) == total_size(v) + r.size,
        total_size(seq![]) == 0,
{
    assert(v.push(r).drop_last() =~= v);
}

/// A page back is as far as the page is long, or the beginning.
pub proof fn law_back(offset: u64, n: u64)
    ensures
        back_by(offset, n) <= offset,
        offset >= n ==> back_by(offset, n) + n == offset,
        offset < n ==> back_by(offset, n) == 0,
{
}

/// A list of conversations attaches what is chosen from it, or captures it where that was asked
/// for.
pub proof fn law_session_entries(v: Seq<Listed>, capture: bool, i: int)
    requires
        0 <= i < v.len(),
    ensures
        session_entries(v, capture, v.len() as int).len() == v.len(),
        session_entries(v, capture, v.len() as int)[i].0 == v[i].name@ + " · "@ + v[i].directory@,
        capture ==> session_entries(v, capture, v.len() as int)[i].1 == Action::CaptureReference(
            v[i].id,
        ),
        !capture ==> session_entries(v, capture, v.len() as int)[i].1 == Action::Attach(v[i].id),
{
    lemma_session_entries(v, capture, v.len() as int, i);
}

proof fn lemma_session_entries(v: Seq<Listed>, capture: bool, n: int, i: int)
    requires
        0 <= n <= v.len(),
    ensures
        session_entries(v, capture, n).len() == n,
        0 <= i < n ==> session_entries(v, capture, n)[i] == (
            v[i].name@ + " · "@ + v[i].directory@,
            if capture {
                Action::CaptureReference(v[i].id)
            } else {
                Action::Attach(v[i].id)
            },
        ),
    decreases n,
{
    if n > 0 {
        lemma_session_entries(v, capture, n - 1, i);
    }
}

/// What is said of the references of a draft: how many there are, and nothing where there are none.
pub proof fn law_status(count: nat)
    ensures
        status_of(0).len() == 0,
        count > 0 ==> status_of(count) == number::digits(count)
            + " frozen references · Actions → Draft references"@,
{
}

/// What is told of a reference that cannot be added names what stands against it; what its owner
/// refused is told in the owner's words.
pub proof fn law_add_sentence(reason: Seq<char>)
    ensures
        add_sentence(AddError::Invalid, reason) == reason,
        add_sentence(AddError::Refused, reason) == reason,
        add_sentence(AddError::OtherTarget, reason)
            == "Reference belongs to a different target session"@,
        add_sentence(AddError::Present, reason) == "Reference is already in this draft"@,
        add_sentence(AddError::Full, reason)
            == "Draft retention is full; remove content before adding a reference"@,
{
}

/// A page of a reference ends with its text as it is shown, and says what was left out of it.
pub proof fn law_reference_text(r: ReferenceView, s: Seq<char>)
    ensures
        ("Reference "@ + r.source).is_prefix_of(reference_text(r, s)),
        ("\n\n"@ + display::shown_text(s)).is_suffix_of(reference_text(r, s)),
        r.omissions is None ==> ("none"@ + "\n\n"@ + display::shown_text(s)).is_suffix_of(
            reference_text(r, s),
        ),
        r.omissions matches Some(o) ==> (o + "\n\n"@ + display::shown_text(s)).is_suffix_of(
            reference_text(r, s),
        ),
{
    let t = reference_text(r, s);
    let head = "Reference "@ + r.source;
    assert(t.take(head.len() as int) =~= head);
    let end = "\n\n"@ + display::shown_text(s);
    assert(t.skip(t.len() - end.len()) =~= end);
    let told = match r.omissions {
        Some(o) => o,
        None => "none"@,
    };
    let tail = told + "\n\n"@ + display::shown_text(s);
    assert(t.skip(t.len() - tail.len()) =~= tail);
}

} // verus!
