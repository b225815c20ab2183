//! The screen of conversations with agents of other programs, and of what needs attention.
use vstd::prelude::*;
use vstd::string::*;
use crate::editor;
use crate::editor::{Editor, EditorView};
use crate::external;
use crate::external::{Choice, Control, Conversation, Position, Target};
use crate::journal;
use crate::keys::{KeyCode, KeyEvent, MouseEvent, MouseKind};
use crate::number;
use crate::number::decimal;
use crate::profiles_ui;
use crate::scene;
use crate::scene::{Draft, DraftView, Scene, SceneView, Shown};
use crate::text;
use crate::text::{cat2, cat3, cat4, cat5, same, trim};

verus! {

/// The bytes of a message.
pub const MESSAGE_BYTES: usize = 131072;

/// What is asked of the owners of the conversations. Where `retire` holds the conversation that was
/// attached is let go first.
#[derive(Clone, Copy, Debug, PartialEq, Eq, Structural)]
pub enum Request {
    Attention { retire: bool },
    Catalog(Option<u64>),
    Open { id: u64, retire: bool },
    Start { endpoint: u64, retire: bool },
    /// A conversation of this program that needs attention is handed back.
    Native { position: Position, request: Option<u64> },
    /// A conversation that needs attention is opened, and its place marked as read.
    OpenAttention { position: Position, retire: bool },
    Control(Control),
    Source { source: u64, start: usize },
    /// The conversation that was attached is let go.
    Retire,
    /// The conversation that came too late is let go, and nothing is told of it.
    Discard,
}

/// What came of it.
#[derive(Debug)]
pub enum Event {
    Attention { items: Vec<(String, Choice)>, truncated: bool },
    Native { position: Position, request: Option<u64> },
    Catalog(Vec<(String, Choice)>),
    /// A conversation was attached, with what is told of it.
    Attached { id: String, notice: Option<String> },
    Done,
    Submitted(String),
    Source { source: u64, start: usize, bytes: Vec<u8> },
    Failed(String),
}

/// The screen.
#[derive(Debug)]
pub struct Ui {
    active: bool,
    /// Whether the owner of the conversations, and that of what needs attention, can be asked.
    available: bool,
    attention: bool,
    attention_menu: bool,
    deferred: Option<Choice>,
    /// The conversation of this program that is opened, and what is looked for in it.
    native: Option<(Position, Option<u64>)>,
    permission_focus: Option<Target>,
    /// Whether a conversation is attached.
    attached: bool,
    working: bool,
    items: Vec<(String, Choice)>,
    selected: usize,
    menu: bool,
    editor: Editor,
    draft_id: Option<String>,
    drafts: Vec<(String, String)>,
    detail: Option<String>,
    next_source: Option<(u64, usize)>,
    offset: usize,
    status: String,
    uncertain: bool,
    pending_submit: bool,
    revision: u64,
}

/// What a [`Ui`] says.
pub struct UiView {
    pub active: bool,
    pub available: bool,
    pub attention: bool,
    pub attention_menu: bool,
    pub deferred: Option<Choice>,
    pub native: Option<(Position, Option<u64>)>,
    pub permission_focus: Option<Target>,
    pub attached: bool,
    pub working: bool,
    pub items: Seq<(Seq<char>, Choice)>,
    pub selected: usize,
    pub menu: bool,
    pub editor: EditorView,
    pub draft_id: Option<Seq<char>>,
    pub drafts: Seq<(Seq<char>, Seq<char>)>,
    pub detail: Option<Seq<char>>,
    pub next_source: Option<(u64, usize)>,
    pub offset: usize,
    pub status: Seq<char>,
    pub uncertain: bool,
    pub pending_submit: bool,
    pub revision: u64,
}

impl View for Ui {
    type V = UiView;

    closed spec fn view(&self) -> UiView {
        UiView {
            active: self.active,
            available: self.available,
            attention: self.attention,
            attention_menu: self.attention_menu,
            deferred: self.deferred,
            native: self.native,
            permission_focus: self.permission_focus,
            attached: self.attached,
            working: self.working,
            items: external::items_of(self.items@),
            selected: self.selected,
            menu: self.menu,
            editor: self.editor@,
            draft_id: scene::optional(self.draft_id),
            drafts: external::drafts_of(self.drafts@),
            detail: scene::optional(self.detail),
            next_source: self.next_source,
            offset: self.offset,
            status: self.status@,
            uncertain: self.uncertain,
            pending_submit: self.pending_submit,
            revision: self.revision,
        }
    }
}

/// Where the first answer to a request for permission stands among the first `n` entries.
pub open spec fn answer_at(
    v: Seq<(Seq<char>, Choice)>,
    generation: u64,
    request: u64,
    n: int,
) -> Option<int>
    decreases n,
{
    if n <= 0 {
        None
    } else {
        match answer_at(v, generation, request, n - 1) {
            Some(i) => Some(i),
            None => if answers(v[n - 1].1, generation, request) {
                Some(n - 1)
            } else {
                None
            },
        }
    }
}

/// Whether a choice answers a request for permission.
pub open spec fn answers(c: Choice, generation: u64, request: u64) -> bool {
    c matches Choice::Control(Control::Answer { generation: g, permission, .. }) && g == generation
        && permission == request
}

/// Whether a request for permission is pending.
pub open spec fn is_pending(c: Conversation, generation: u64, request: u64) -> bool {
    exists|i: int|
        0 <= i < c.permissions@.len() && (#[trigger] c.permissions@[i]).generation == generation
            && c.permissions@[i].id == request
}

impl UiView {
    /// The screen before it was opened.
    pub open spec fn fresh(available: bool, attention: bool) -> UiView {
        UiView {
            active: false,
            available,
            attention,
            attention_menu: false,
            deferred: None,
            native: None,
            permission_focus: None,
            attached: false,
            working: false,
            items: seq![],
            selected: 0,
            menu: true,
            editor: EditorView::over(seq![], MESSAGE_BYTES as nat),
            draft_id: None,
            drafts: seq![],
            detail: None,
            next_source: None,
            offset: 0,
            status: seq![],
            uncertain: false,
            pending_submit: false,
            revision: 0,
        }
    }

    /// The draft is kept with its conversation.
    pub open spec fn remembered(self) -> UiView {
        UiView {
            drafts: external::kept_drafts(
                match self.draft_id {
                    Some(id) => external::with_draft(self.drafts, id, self.editor.text),
                    None => self.drafts,
                },
            ),
            ..self
        }
    }

    /// What listing the conversations leads to.
    pub open spec fn catalog(self, after: Option<u64>) -> (UiView, Option<Request>) {
        let v = UiView { attention_menu: false, ..self };
        if v.working {
            (v, None)
        } else if !v.available {
            (
                UiView {
                    status: "External conversations unavailable on this connection"@,
                    ..v
                },
                None,
            )
        } else {
            (
                UiView { menu: true, detail: None, working: true, ..v.remembered() },
                Some(Request::Catalog(after)),
            )
        }
    }

    /// What listing what needs attention leads to.
    pub open spec fn opening_attention(self) -> (UiView, Option<Request>) {
        let v = UiView { active: true, ..self };
        if v.working {
            (UiView { deferred: Some(Choice::Attention), ..v }, None)
        } else {
            let w = UiView { attention_menu: true, menu: true, detail: None, ..v };
            if !w.attention {
                (UiView { status: "Attention navigation unavailable"@, ..w }, None)
            } else {
                (
                    UiView { attached: false, working: true, ..w.remembered() },
                    Some(Request::Attention { retire: w.attached }),
                )
            }
        }
    }

    /// What asking something of a conversation leads to.
    pub open spec fn controlling(self, c: Control) -> (UiView, Option<Request>) {
        if self.working || !self.attached {
            (self, None)
        } else {
            (
                UiView { pending_submit: c is Submit, working: true, ..self },
                Some(Request::Control(c)),
            )
        }
    }

    /// What opening a conversation leads to.
    pub open spec fn opening(self, request: Request) -> (UiView, Option<Request>) {
        let v = UiView { attention_menu: false, detail: None, ..self };
        if !v.available {
            (v, None)
        } else {
            (
                UiView { attached: false, working: true, ..v.remembered() },
                Some(request),
            )
        }
    }

    /// What opening what needs attention leads to.
    pub open spec fn attending(self, position: Position, target: Option<Target>) -> (
        UiView,
        Option<Request>,
    ) {
        if position.native {
            match target {
                Some(Target::External { .. }) => (
                    UiView { status: "Attention backend changed"@, ..self },
                    None,
                ),
                Some(Target::Native { request, .. }) => (
                    UiView { working: true, ..self },
                    Some(Request::Native { position, request: Some(request) }),
                ),
                None => (
                    UiView { working: true, ..self },
                    Some(Request::Native { position, request: None }),
                ),
            }
        } else if !self.available || !self.attention {
            (self, None)
        } else {
            (
                UiView {
                    attached: false,
                    permission_focus: target,
                    working: true,
                    ..(UiView { attention_menu: false, ..self }).remembered()
                },
                Some(Request::OpenAttention { position, retire: self.attached }),
            )
        }
    }

    /// What a choice leads to.
    pub open spec fn choosing(self, c: Choice) -> (UiView, Option<Request>) {
        if self.working {
            (self, None)
        } else {
            match c {
                Choice::Attention => self.opening_attention(),
                Choice::AttentionOpen { position, target } => self.attending(position, target),
                Choice::Catalog(after) => self.catalog(after),
                Choice::Control(c) => (UiView { menu: false, ..self }).controlling(c),
                Choice::Open(id) => self.opening(Request::Open { id, retire: self.attached }),
                Choice::Start { endpoint } => self.opening(
                    Request::Start { endpoint, retire: self.attached },
                ),
                Choice::Source { source, start } => if !self.attached {
                    (self, None)
                } else {
                    (
                        UiView { menu: false, working: true, ..self },
                        Some(Request::Source { source, start }),
                    )
                },
            }
        }
    }

    /// What listing what can be done with a conversation leads to.
    pub open spec fn controls(self, c: Option<Conversation>) -> (UiView, Option<Request>) {
        match c {
            Some(c) if self.attached => (
                UiView {
                    items: external::control_items(c),
                    selected: 0,
                    menu: true,
                    detail: None,
                    revision: profiles_ui::next_revision(self.revision),
                    ..self
                },
                None,
            ),
            _ => self.catalog(None),
        }
    }

    /// What letting the conversation go leads to.
    pub open spec fn detaching(self) -> (UiView, Option<Request>) {
        if !self.working && self.attached {
            (UiView { attached: false, working: true, ..self }, Some(Request::Retire))
        } else {
            (self, None)
        }
    }

    /// Whether a key is written into the message.
    pub open spec fn writes(self, k: KeyEvent) -> bool {
        k.code != KeyCode::Escape && !(k.control && (k.code == KeyCode::Char('p') || k.code
            == KeyCode::Char('c'))) && self.detail is None && !self.menu && !(k.code
            == KeyCode::Enter && !k.shift)
    }

    /// What leaving leads to.
    pub open spec fn escaping(self) -> (UiView, Option<Request>) {
        if self.detail is Some {
            (UiView { detail: None, ..self }, None)
        } else if self.menu && self.attached {
            (UiView { menu: false, ..self }, None)
        } else {
            (UiView { active: false, ..self }).remembered().detaching()
        }
    }

    /// What a key leads to over a text that is read.
    pub open spec fn reading(self, k: KeyEvent) -> (UiView, Option<Request>) {
        match k.code {
            KeyCode::Up | KeyCode::PageUp => (
                UiView { offset: profiles_ui::back_four(self.offset), ..self },
                None,
            ),
            KeyCode::Down | KeyCode::PageDown => (
                UiView { offset: profiles_ui::on_four(self.offset), ..self },
                None,
            ),
            KeyCode::Right => match self.next_source {
                Some((source, start)) => self.choosing(Choice::Source { source, start }),
                None => (self, None),
            },
            _ => (self, None),
        }
    }

    /// What a key leads to in a menu.
    pub open spec fn in_menu(self, k: KeyEvent) -> (UiView, Option<Request>) {
        match k.code {
            KeyCode::Up => (
                UiView { selected: scene::step_up(self.selected as int) as usize, ..self },
                None,
            ),
            KeyCode::Down => (
                UiView {
                    selected: scene::step_down(
                        self.selected as int,
                        self.items.len() as int,
                    ) as usize,
                    ..self
                },
                None,
            ),
            KeyCode::Enter => if self.selected < self.items.len() {
                self.choosing(self.items[self.selected as int].1)
            } else {
                (self, None)
            },
            _ => (self, None),
        }
    }

    /// What submitting leads to: not while the outcome of the last message is unknown.
    pub open spec fn submitting(self) -> (UiView, Option<Request>) {
        if !self.working && !self.uncertain && text::trimmed(self.editor.text).len() > 0 {
            self.controlling(Control::Submit)
        } else {
            (self, None)
        }
    }

    /// What a key leads to that is not written into the message.
    pub open spec fn pressing(self, k: KeyEvent, c: Option<Conversation>) -> (
        UiView,
        Option<Request>,
    ) {
        if k.code == KeyCode::Escape {
            self.escaping()
        } else if k.control && k.code == KeyCode::Char('p') {
            self.controls(c)
        } else if k.control && k.code == KeyCode::Char('c') {
            self.controlling(Control::Cancel)
        } else if self.detail is Some {
            self.reading(k)
        } else if self.menu {
            self.in_menu(k)
        } else {
            self.submitting()
        }
    }

    /// The request for permission that is looked for is selected.
    pub open spec fn focusing(self, target: Target, c: Option<Conversation>) -> UiView {
        match target {
            Target::Native { .. } => self,
            Target::External { generation, request } => match c {
                Some(c) if is_pending(c, generation, request) => {
                    let v = self.controls(Some(c)).0;
                    match answer_at(v.items, generation, request, v.items.len() as int) {
                        Some(i) => UiView { selected: i as usize, ..v },
                        None => v,
                    }
                },
                _ => UiView { status: "Permission is no longer pending"@, ..self },
            },
        }
    }
}

/// An event, as far as it is told.
pub enum EventView {
    Attention { items: Seq<(Seq<char>, Choice)>, truncated: bool },
    Native { position: Position, request: Option<u64> },
    Catalog(Seq<(Seq<char>, Choice)>),
    Attached { id: Seq<char>, notice: Option<Seq<char>> },
    Done,
    Submitted(Seq<char>),
    Source { source: u64, start: usize, bytes: Seq<u8> },
    Failed(Seq<char>),
}

impl View for Event {
    type V = EventView;

    open spec fn view(&self) -> EventView {
        match self {
            Event::Attention { items, truncated } => EventView::Attention {
                items: external::items_of(items@),
                truncated: *truncated,
            },
            Event::Native { position, request } => EventView::Native {
                position: *position,
                request: *request,
            },
            Event::Catalog(items) => EventView::Catalog(external::items_of(items@)),
            Event::Attached { id, notice } => EventView::Attached {
                id: id@,
                notice: scene::optional(*notice),
            },
            Event::Done => EventView::Done,
            Event::Submitted(s) => EventView::Submitted(s@),
            Event::Source { source, start, bytes } => EventView::Source {
                source: *source,
                start: *start,
                bytes: bytes@,
            },
            Event::Failed(s) => EventView::Failed(s@),
        }
    }
}

impl UiView {
    /// A conversation was attached: its draft comes back. Where the screen was left it is let go.
    #[verifier::opaque]
    pub open spec fn attaching(self, id: Seq<char>, notice: Option<Seq<char>>) -> (
        UiView,
        Option<Request>,
    ) {
        if self.active {
            (
                UiView {
                    draft_id: Some(id),
                    editor: EditorView::over(
                        match external::draft_at(self.drafts, id) {
                            Some(s) => s,
                            None => seq![],
                        },
                        MESSAGE_BYTES as nat,
                    ),
                    attached: true,
                    menu: false,
                    status: match notice {
                        Some(s) => s,
                        None => seq![],
                    },
                    uncertain: false,
                    ..self
                },
                None,
            )
        } else {
            (self, Some(Request::Discard))
        }
    }

    /// A message was taken: what is written goes, unless it was changed since.
    #[verifier::opaque]
    pub open spec fn admitted(self, s: Seq<char>) -> UiView {
        UiView {
            status: "Prompt admitted; following local observations"@,
            ..(if self.editor.text == s {
                (UiView {
                    editor: EditorView {
                        text: seq![],
                        cursor: 0,
                        history: journal::History::empty(),
                        ..self.editor
                    },
                    ..self
                }).remembered()
            } else {
                self
            })
        }
    }

    /// A menu is shown.
    #[verifier::opaque]
    pub open spec fn listing(self, items: Seq<(Seq<char>, Choice)>, status: Seq<char>) -> UiView {
        UiView { items, selected: 0, menu: true, status, ..self }
    }

    /// A conversation of this program is opened: the screen is left.
    #[verifier::opaque]
    pub open spec fn going_native(self, position: Position, request: Option<u64>) -> (
        UiView,
        Option<Request>,
    ) {
        if position.native {
            (UiView { native: Some((position, request)), active: false, ..self }).detaching()
        } else {
            (self, None)
        }
    }

    /// Something was done.
    #[verifier::opaque]
    pub open spec fn observed(self) -> UiView {
        UiView {
            status: if self.uncertain {
                self.status
            } else {
                "Operation observed"@
            },
            ..self
        }
    }

    /// Something failed: of a message it is then not known whether it was taken.
    #[verifier::opaque]
    pub open spec fn failing(self, s: Seq<char>) -> UiView {
        UiView { uncertain: self.uncertain || self.pending_submit, status: s, ..self }
    }

    /// A part of a source is shown.
    #[verifier::opaque]
    pub open spec fn sourced(
        self,
        source: u64,
        start: usize,
        bytes: Seq<u8>,
        text: Seq<char>,
    ) -> UiView {
        let n = external::shown_length(bytes.len());
        UiView {
            detail: Some(external::source_text(start as nat, (start + n) as nat, text)),
            next_source: if bytes.len() > n || bytes.len() == external::SOURCE_BYTES {
                Some((source, (start + n) as usize))
            } else {
                None
            },
            offset: 0,
            ..self
        }
    }

    /// What an event changes, before what was put off is done. `text` is what the bytes of a source
    /// were read as.
    #[verifier::opaque]
    pub open spec fn taking(self, e: EventView, text: Seq<char>) -> (UiView, Option<Request>) {
        match e {
            EventView::Attention { items, truncated } => (
                self.listing(
                    items,
                    if truncated {
                        "Showing bounded active conversations; more requests may exist"@
                    } else {
                        "Current owner activity; reading does not cancel tasks"@
                    },
                ),
                None,
            ),
            EventView::Native { position, request } => self.going_native(position, request),
            EventView::Catalog(items) => (
                self.listing(
                    items,
                    if items.len() == 0 {
                        "No enabled endpoints or saved external conversations"@
                    } else {
                        seq![]
                    },
                ),
                None,
            ),
            EventView::Attached { id, notice } => self.attaching(id, notice),
            EventView::Done => (self.observed(), None),
            EventView::Submitted(s) => (self.admitted(s), None),
            EventView::Source { source, start, bytes } => (
                self.sourced(source, start, bytes, text),
                None,
            ),
            EventView::Failed(s) => (self.failing(s), None),
        }
    }

    /// What is looked for is selected, once a conversation is attached.
    #[verifier::opaque]
    pub open spec fn focused(self, c: Option<Conversation>) -> UiView {
        match self.permission_focus {
            Some(t) if self.attached => (UiView { permission_focus: None, ..self }).focusing(t, c),
            _ => self,
        }
    }

    /// What was put off is done, or the conversation is let go.
    #[verifier::opaque]
    pub open spec fn settling(self) -> (UiView, Option<Request>) {
        let v = UiView { pending_submit: false, ..self };
        if v.active {
            match v.deferred {
                Some(c) => (UiView { deferred: None, ..v }).choosing(c),
                None => (v, None),
            }
        } else {
            v.detaching()
        }
    }

    /// What an event leads to.
    pub open spec fn told(self, e: EventView, text: Seq<char>, c: Option<Conversation>) -> (
        UiView,
        Option<Request>,
    ) {
        let begun = UiView {
            working: false,
            revision: profiles_ui::next_revision(self.revision),
            ..self
        };
        let (v, first) = begun.taking(e, text);
        let (w, second) = v.focused(c).settling();
        (
            w,
            match first {
                Some(r) => Some(r),
                None => second,
            },
        )
    }
}

fn bump(n: u64) -> (r: u64)
    ensures
        r == profiles_ui::next_revision(n),
{
    if n == u64::MAX {
        0
    } else {
        n + 1
    }
}

impl Ui {
    /// The editor is well formed.
    pub closed spec fn wf(&self) -> bool {
        self.editor.wf()
    }

    /// The screen before it was opened.
    pub fn new(available: bool, attention: bool) -> (r: Ui)
        ensures
            r.wf(),
            r@ == UiView::fresh(available, attention),
    {
        let empty = String::new();
        proof {
            assert(empty@ =~= Seq::<char>::empty());
        }
        let r = Ui {
            active: false,
            available,
            attention,
            attention_menu: false,
            deferred: None,
            native: None,
            permission_focus: None,
            attached: false,
            working: false,
            items: Vec::new(),
            selected: 0,
            menu: true,
            editor: Editor::with_text(empty, MESSAGE_BYTES),
            draft_id: None,
            drafts: Vec::new(),
            detail: None,
            next_source: None,
            offset: 0,
            status: String::new(),
            uncertain: false,
            pending_submit: false,
            revision: 0,
        };
        proof {
            assert(external::drafts_of(r.drafts@) =~= Seq::<(Seq<char>, Seq<char>)>::empty());
            assert(external::items_of(r.items@) =~= Seq::<(Seq<char>, Choice)>::empty());
            assert(r.status@ =~= Seq::<char>::empty());
            assert(r@.editor == UiView::fresh(available, attention).editor);
            assert(r@ =~= UiView::fresh(available, attention));
        }
        r
    }

    pub fn active(&self) -> (r: bool)
        ensures
            r == self@.active,
    {
        self.active
    }

    pub fn working(&self) -> (r: bool)
        ensures
            r == self@.working,
    {
        self.working
    }

    /// What is written.
    pub fn text(&self) -> (r: &str)
        ensures
            r@ == self@.editor.text,
    {
        self.editor.text()
    }

    /// Takes the conversation of this program that is opened, and what is looked for in it.
    pub fn take_native(&mut self) -> (r: Option<(Position, Option<u64>)>)
        requires
            old(self).wf(),
        ensures
            final(self).wf(),
            r == old(self)@.native,
            final(self)@ == (UiView { native: None, ..old(self)@ }),
    {
        let r = self.native;
        self.native = None;
        r
    }

    fn remember(&mut self)
        requires
            old(self).wf(),
        ensures
            final(self).wf(),
            final(self)@ == old(self)@.remembered(),
    {
        if let Some(id) = &self.draft_id {
            external::put_draft(&mut self.drafts, id.as_str(), self.editor.text());
        }
        external::trim_drafts(&mut self.drafts);
    }

    fn list(&mut self, after: Option<u64>) -> (r: Option<Request>)
        requires
            old(self).wf(),
        ensures
            final(self).wf(),
            (final(self)@, r) == old(self)@.catalog(after),
    {
        self.attention_menu = false;
        if self.working {
            return None;
        }
        if !self.available {
            self.status = "External conversations unavailable on this connection".to_owned();
            return None;
        }
        self.remember();
        self.menu = true;
        self.detail = None;
        self.working = true;
        Some(Request::Catalog(after))
    }

    /// Opens the screen on the conversations.
    pub fn open(&mut self) -> (r: Option<Request>)
        requires
            old(self).wf(),
        ensures
            final(self).wf(),
            ({
                let v = UiView { active: true, ..old(self)@ };
                if v.working {
                    r is None && final(self)@ == (UiView {
                        deferred: Some(Choice::Catalog(None)),
                        ..v
                    })
                } else {
                    (final(self)@, r) == v.catalog(None)
                }
            }),
    {
        self.active = true;
        if self.working {
            self.deferred = Some(Choice::Catalog(None));
            return None;
        }
        self.list(None)
    }

    /// Opens the screen on a conversation.
    pub fn open_conversation(&mut self, id: u64) -> (r: Option<Request>)
        requires
            old(self).wf(),
        ensures
            final(self).wf(),
            ({
                let v = UiView { active: true, ..old(self)@ };
                if v.working {
                    r is None && final(self)@ == (UiView { deferred: Some(Choice::Open(id)), ..v })
                } else {
                    (final(self)@, r) == v.choosing(Choice::Open(id))
                }
            }),
    {
        self.active = true;
        if self.working {
            self.deferred = Some(Choice::Open(id));
            return None;
        }
        self.take_choice(Choice::Open(id))
    }

    /// Opens the screen on what needs attention.
    pub fn open_attention(&mut self) -> (r: Option<Request>)
        requires
            old(self).wf(),
        ensures
            final(self).wf(),
            (final(self)@, r) == old(self)@.opening_attention(),
    {
        self.active = true;
        if self.working {
            self.deferred = Some(Choice::Attention);
            return None;
        }
        self.attention_menu = true;
        self.menu = true;
        self.detail = None;
        if !self.attention {
            self.status = "Attention navigation unavailable".to_owned();
            return None;
        }
        let retire: bool = self.attached;
        self.remember();
        self.attached = false;
        self.working = true;
        Some(Request::Attention { retire })
    }

    fn control(&mut self, c: Control) -> (r: Option<Request>)
        requires
            old(self).wf(),
        ensures
            final(self).wf(),
            (final(self)@, r) == old(self)@.controlling(c),
    {
        if self.working || !self.attached {
            return None;
        }
        self.pending_submit = matches!(c, Control::Submit);
        self.working = true;
        Some(Request::Control(c))
    }

    fn begin(&mut self, request: Request) -> (r: Option<Request>)
        requires
            old(self).wf(),
        ensures
            final(self).wf(),
            (final(self)@, r) == old(self)@.opening(request),
    {
        self.attention_menu = false;
        self.detail = None;
        if !self.available {
            return None;
        }
        self.remember();
        self.attached = false;
        self.working = true;
        Some(request)
    }

    fn attend(&mut self, position: Position, target: Option<Target>) -> (r: Option<Request>)
        requires
            old(self).wf(),
        ensures
            final(self).wf(),
            (final(self)@, r) == old(self)@.attending(position, target),
    {
        if position.native {
            let request: Option<u64> = match target {
                Some(Target::External { .. }) => {
                    self.status = "Attention backend changed".to_owned();
                    return None;
                },
                Some(Target::Native { request, question: _ }) => Some(request),
                None => None,
            };
            self.working = true;
            return Some(Request::Native { position, request });
        }
        if !self.available || !self.attention {
            return None;
        }
        let retire: bool = self.attached;
        self.attention_menu = false;
        self.remember();
        self.attached = false;
        self.permission_focus = target;
        self.working = true;
        Some(Request::OpenAttention { position, retire })
    }

    /// Does what was chosen. Says what is asked.
    pub fn take_choice(&mut self, c: Choice) -> (r: Option<Request>)
        requires
            old(self).wf(),
        ensures
            final(self).wf(),
            (final(self)@, r) == old(self)@.choosing(c),
    {
        if self.working {
            return None;
        }
        match c {
            Choice::Attention => self.open_attention(),
            Choice::AttentionOpen { position, target } => self.attend(position, target),
            Choice::Catalog(after) => self.list(after),
            Choice::Control(c) => {
                self.menu = false;
                self.control(c)
            },
            Choice::Open(id) => {
                let retire: bool = self.attached;
                self.begin(Request::Open { id, retire })
            },
            Choice::Start { endpoint } => {
                let retire: bool = self.attached;
                self.begin(Request::Start { endpoint, retire })
            },
            Choice::Source { source, start } => {
                if !self.attached {
                    return None;
                }
                self.menu = false;
                self.working = true;
                Some(Request::Source { source, start })
            },
        }
    }

    fn show_controls(&mut self, c: Option<&Conversation>) -> (r: Option<Request>)
        requires
            old(self).wf(),
        ensures
            final(self).wf(),
            (final(self)@, r) == old(self)@.controls(
                match c {
                    Some(c) => Some(*c),
                    None => None,
                },
            ),
    {
        if let Some(c) = c {
            if self.attached {
                self.items = external::controls(c);
                self.selected = 0;
                self.menu = true;
                self.detail = None;
                self.revision = bump(self.revision);
                return None;
            }
        }
        self.list(None)
    }

    fn detach(&mut self) -> (r: Option<Request>)
        requires
            old(self).wf(),
        ensures
            final(self).wf(),
            (final(self)@, r) == old(self)@.detaching(),
    {
        if !self.working && self.attached {
            self.attached = false;
            self.working = true;
            return Some(Request::Retire);
        }
        None
    }

    /// Takes in a pasted text, where a message is written.
    pub fn paste(&mut self, s: &str) -> (r: Result<(), &'static str>)
        requires
            old(self).wf(),
        ensures
            final(self).wf(),
            if !old(self)@.menu && old(self)@.detail is None {
                &&& editor::inserted(old(self)@.editor, s@, r, final(self)@.editor)
                &&& final(self)@ == (UiView {
                    uncertain: false,
                    editor: final(self)@.editor,
                    status: match r {
                        Ok(_) => old(self)@.status,
                        Err(e) => e@,
                    },
                    ..old(self)@
                })
            } else {
                r is Ok && final(self)@ == old(self)@
            },
    {
        if self.menu || self.detail.is_some() {
            return Ok(());
        }
        self.uncertain = false;
        let r = self.editor.insert(s);
        if let Err(problem) = r {
            self.status = problem.to_owned();
        }
        r
    }

    fn escape(&mut self) -> (r: Option<Request>)
        requires
            old(self).wf(),
        ensures
            final(self).wf(),
            (final(self)@, r) == old(self)@.escaping(),
    {
        if self.detail.is_some() {
            self.detail = None;
            return None;
        }
        if self.menu && self.attached {
            self.menu = false;
            return None;
        }
        self.active = false;
        self.remember();
        self.detach()
    }

    fn read_key(&mut self, k: KeyEvent) -> (r: Option<Request>)
        requires
            old(self).wf(),
        ensures
            final(self).wf(),
            (final(self)@, r) == old(self)@.reading(k),
    {
        match k.code {
            KeyCode::Up => {
                self.offset = self.offset.saturating_sub(4);
                None
            },
            KeyCode::PageUp => {
                self.offset = self.offset.saturating_sub(4);
                None
            },
            KeyCode::Down => {
                self.offset = self.offset.saturating_add(4);
                None
            },
            KeyCode::PageDown => {
                self.offset = self.offset.saturating_add(4);
                None
            },
            KeyCode::Right => match self.next_source {
                Some((source, start)) => self.take_choice(Choice::Source { source, start }),
                None => None,
            },
            _ => None,
        }
    }

    fn menu_key(&mut self, k: KeyEvent) -> (r: Option<Request>)
        requires
            old(self).wf(),
        ensures
            final(self).wf(),
            (final(self)@, r) == old(self)@.in_menu(k),
    {
        proof {
            assert(self@.items.len() == self.items@.len());
        }
        match k.code {
            KeyCode::Up => {
                self.selected = scene::up(self.selected);
                None
            },
            KeyCode::Down => {
                self.selected = scene::down(self.selected, self.items.len());
                None
            },
            KeyCode::Enter => {
                if self.selected < self.items.len() {
                    let c = self.items[self.selected].1;
                    self.take_choice(c)
                } else {
                    None
                }
            },
            _ => None,
        }
    }

    fn submit(&mut self) -> (r: Option<Request>)
        requires
            old(self).wf(),
        ensures
            final(self).wf(),
            (final(self)@, r) == old(self)@.submitting(),
    {
        if self.working || self.uncertain || trim(self.editor.text()).as_str().is_empty() {
            return None;
        }
        self.control(Control::Submit)
    }

    /// Acts on a key. `c` is the conversation that is attached. Says what is asked.
    pub fn key(&mut self, k: KeyEvent, c: Option<&Conversation>) -> (r: Option<Request>)
        requires
            old(self).wf(),
        ensures
            final(self).wf(),
            if old(self)@.writes(k) {
                &&& r is None
                &&& exists|e: Result<(), &'static str>|
                    {
                        &&& #[trigger] editor::pressed(
                            old(self)@.editor,
                            k,
                            e,
                            final(self)@.editor,
                        )
                        &&& final(self)@ == (UiView {
                            uncertain: false,
                            editor: final(self)@.editor,
                            status: match e {
                                Ok(_) => old(self)@.status,
                                Err(p) => p@,
                            },
                            ..old(self)@
                        })
                    }
            } else {
                (final(self)@, r) == old(self)@.pressing(
                    k,
                    match c {
                        Some(c) => Some(*c),
                        None => None,
                    },
                )
            },
    {
        let ghost v = self@;
        if k.code == KeyCode::Escape {
            return self.escape();
        }
        if k.control && k.code == KeyCode::Char('p') {
            return self.show_controls(c);
        }
        if k.control && k.code == KeyCode::Char('c') {
            return self.control(Control::Cancel);
        }
        if self.detail.is_some() {
            return self.read_key(k);
        }
        if self.menu {
            return self.menu_key(k);
        }
        if k.code == KeyCode::Enter && !k.shift {
            return self.submit();
        }
        self.uncertain = false;
        let e = self.editor.key(k);
        if let Err(problem) = e {
            self.status = problem.to_owned();
        }
        proof {
            assert(editor::pressed(v.editor, k, e, self@.editor));
        }
        None
    }

    /// Acts on a click, while the frame shows the entries as they are now.
    pub fn mouse(&mut self, m: MouseEvent, view: &Shown)
        requires
            old(self).wf(),
        ensures
            final(self).wf(),
            final(self)@ == (UiView {
                selected: match view.choice(m.column as int, m.row as int) {
                    Some(index) if old(self)@.menu && view.choice_revision == old(self)@.revision
                        && m.kind is LeftDown && index < old(self)@.items.len() => index,
                    _ => old(self)@.selected,
                },
                ..old(self)@
            }),
    {
        if !self.menu || view.choice_revision != self.revision || !matches!(
            m.kind,
            MouseKind::LeftDown
        ) {
            return;
        }
        if let Some(index) = view.choice_at(m.column, m.row) {
            if index < self.items.len() {
                self.selected = index;
            }
        }
    }

    fn focus(&mut self, target: Target, c: Option<&Conversation>)
        requires
            old(self).wf(),
            old(self)@.attached,
        ensures
            final(self).wf(),
            final(self)@ == old(self)@.focusing(
                target,
                match c {
                    Some(c) => Some(*c),
                    None => None,
                },
            ),
    {
        if let Target::External { generation, request } = target {
            let live: bool = match c {
                Some(c) => find_permission(c, generation, request),
                None => false,
            };
            if !live {
                self.status = "Permission is no longer pending".to_owned();
                return;
            }
            let _ = self.show_controls(c);
            if let Some(i) = find_answer(&self.items, generation, request) {
                self.selected = i;
            }
        }
    }

    fn take_listed(&mut self, items: Vec<(String, Choice)>, status: String)
        requires
            old(self).wf(),
        ensures
            final(self).wf(),
            final(self)@ == old(self)@.listing(external::items_of(items@), status@),
    {
        proof {
            reveal(UiView::listing);
        }
        self.items = items;
        self.selected = 0;
        self.menu = true;
        self.status = status;
    }

    fn take_attached(&mut self, id: String, notice: Option<String>) -> (r: Option<Request>)
        requires
            old(self).wf(),
        ensures
            final(self).wf(),
            (final(self)@, r) == old(self)@.attaching(id@, scene::optional(notice)),
    {
        proof {
            reveal(UiView::attaching);
        }
        if !self.active {
            return Some(Request::Discard);
        }
        let draft = external::find_draft(&self.drafts, id.as_str());
        self.editor = Editor::with_text(draft, MESSAGE_BYTES);
        self.draft_id = Some(id);
        self.attached = true;
        self.menu = false;
        self.status = match notice {
            Some(s) => s,
            None => {
                let s = String::new();
                proof {
                    assert(s@ =~= Seq::<char>::empty());
                }
                s
            },
        };
        self.uncertain = false;
        None
    }

    fn take_submitted(&mut self, s: String)
        requires
            old(self).wf(),
        ensures
            final(self).wf(),
            final(self)@ == old(self)@.admitted(s@),
    {
        proof {
            reveal(UiView::admitted);
        }
        if same(self.editor.text(), s.as_str()) {
            let _ = self.editor.take();
            self.remember();
        }
        self.status = "Prompt admitted; following local observations".to_owned();
    }

    fn go_native(&mut self, position: Position, request: Option<u64>) -> (r: Option<Request>)
        requires
            old(self).wf(),
        ensures
            final(self).wf(),
            (final(self)@, r) == old(self)@.going_native(position, request),
    {
        proof {
            reveal(UiView::going_native);
        }
        if !position.native {
            return None;
        }
        self.native = Some((position, request));
        self.active = false;
        self.detach()
    }

    fn observe(&mut self)
        requires
            old(self).wf(),
        ensures
            final(self).wf(),
            final(self)@ == old(self)@.observed(),
    {
        proof {
            reveal(UiView::observed);
        }
        if !self.uncertain {
            self.status = "Operation observed".to_owned();
        }
    }

    fn fail(&mut self, s: String)
        requires
            old(self).wf(),
        ensures
            final(self).wf(),
            final(self)@ == old(self)@.failing(s@),
    {
        proof {
            reveal(UiView::failing);
        }
        if self.pending_submit {
            self.uncertain = true;
        }
        self.status = s;
    }

    fn take_source(&mut self, source: u64, start: usize, bytes: Vec<u8>)
        requires
            old(self).wf(),
            start + external::SHOWN_BYTES <= usize::MAX,
        ensures
            final(self).wf(),
            final(self)@ == old(self)@.sourced(
                source,
                start,
                bytes@,
                crate::pages::lossy_text(bytes@.take(external::shown_length(bytes@.len()))),
            ),
    {
        proof {
            reveal(UiView::sourced);
        }
        let (shown, next) = external::show_source(start, &bytes);
        self.detail = Some(shown);
        self.next_source = match next {
            Some(at) => Some((source, at)),
            None => None,
        };
        self.offset = 0;
    }

    fn take_event(&mut self, e: Event) -> (r: Option<Request>)
        requires
            old(self).wf(),
            e matches Event::Source { start, .. } ==> start + external::SHOWN_BYTES <= usize::MAX,
        ensures
            final(self).wf(),
            (final(self)@, r) == old(self)@.taking(
                e@,
                match e {
                    Event::Source { bytes, .. } => crate::pages::lossy_text(
                        bytes@.take(external::shown_length(bytes@.len())),
                    ),
                    _ => seq![],
                },
            ),
    {
        proof {
            reveal(UiView::taking);
        }
        match e {
            Event::Attention { items, truncated } => {
                self.take_listed(
                    items,
                    if truncated {
                        "Showing bounded active conversations; more requests may exist".to_owned()
                    } else {
                        "Current owner activity; reading does not cancel tasks".to_owned()
                    },
                );
                None
            },
            Event::Native { position, request } => self.go_native(position, request),
            Event::Catalog(items) => {
                let status: String = if items.len() == 0 {
                    "No enabled endpoints or saved external conversations".to_owned()
                } else {
                    String::new()
                };
                proof {
                    assert(external::items_of(items@).len() == items@.len());
                    if items@.len() > 0 {
                        assert(status@ =~= Seq::<char>::empty());
                    }
                }
                self.take_listed(items, status);
                None
            },
            Event::Attached { id, notice } => self.take_attached(id, notice),
            Event::Done => {
                self.observe();
                None
            },
            Event::Submitted(s) => {
                self.take_submitted(s);
                None
            },
            Event::Source { source, start, bytes } => {
                self.take_source(source, start, bytes);
                None
            },
            Event::Failed(s) => {
                self.fail(s);
                None
            },
        }
    }

    fn focus_pending(&mut self, c: Option<&Conversation>)
        requires
            old(self).wf(),
        ensures
            final(self).wf(),
            final(self)@ == old(self)@.focused(
                match c {
                    Some(c) => Some(*c),
                    None => None,
                },
            ),
    {
        proof {
            reveal(UiView::focused);
        }
        if self.attached {
            if let Some(target) = self.permission_focus {
                self.permission_focus = None;
                self.focus(target, c);
            }
        }
    }

    fn settle(&mut self) -> (r: Option<Request>)
        requires
            old(self).wf(),
        ensures
            final(self).wf(),
            (final(self)@, r) == old(self)@.settling(),
    {
        proof {
            reveal(UiView::settling);
        }
        self.pending_submit = false;
        if self.active {
            match self.deferred {
                Some(choice) => {
                    self.deferred = None;
                    self.take_choice(choice)
                },
                None => None,
            }
        } else {
            self.detach()
        }
    }

    /// Takes in what came of what was asked. `c` is the conversation that is attached then. Says
    /// what is asked next.
    pub fn next(&mut self, e: Event, c: Option<&Conversation>) -> (r: Option<Request>)
        requires
            old(self).wf(),
            e matches Event::Source { start, .. } ==> start + external::SHOWN_BYTES <= usize::MAX,
        ensures
            final(self).wf(),
            (final(self)@, r) == old(self)@.told(
                e@,
                match e {
                    Event::Source { bytes, .. } => crate::pages::lossy_text(
                        bytes@.take(external::shown_length(bytes@.len())),
                    ),
                    _ => seq![],
                },
                match c {
                    Some(c) => Some(*c),
                    None => None,
                },
            ),
    {
        self.working = false;
        self.revision = bump(self.revision);
        let first = self.take_event(e);
        self.focus_pending(c);
        let second = self.settle();
        match first {
            Some(r) => Some(r),
            None => second,
        }
    }

    /// Takes in that the conversation has changed.
    pub fn changed(&mut self)
        requires
            old(self).wf(),
        ensures
            final(self).wf(),
            final(self)@ == (UiView {
                revision: profiles_ui::next_revision(old(self)@.revision),
                ..old(self)@
            }),
    {
        self.revision = bump(self.revision);
    }

    /// Closes the screen, once and for all.
    pub fn shutdown(&mut self)
        requires
            old(self).wf(),
        ensures
            final(self).wf(),
            final(self)@ == (UiView { active: false, ..old(self)@ }),
    {
        self.active = false;
    }

    /// The screen. `c` is the conversation that is attached.
    pub fn scene(&self, c: Option<&Conversation>) -> (r: Scene)
        requires
            self.wf(),
        ensures
            r@ == shown(
                self@,
                match c {
                    Some(c) => Some(*c),
                    None => None,
                },
            ),
    {
        let view: Option<&Conversation> = if self.attention_menu {
            None
        } else {
            c
        };
        let mut items: Vec<String> = Vec::new();
        if self.menu {
            let mut i: usize = 0;
            while i < self.items.len()
                invariant
                    i <= self.items@.len(),
                    items@.len() == i,
                    forall|j: int| 0 <= j < i ==> (#[trigger] items@[j])@ == self.items@[j].0@,
                decreases self.items@.len() - i,
            {
                items.push(self.items[i].0.clone());
                i += 1;
            }
        }
        let detail: Option<String> = match &self.detail {
            Some(s) => Some(s.clone()),
            None => if self.menu {
                None
            } else {
                match view {
                    Some(c) => Some(
                        external::tail(
                            external::transcript(&c.blocks).as_str(),
                            external::TAIL_BYTES,
                        ),
                    ),
                    None => {
                        let s = String::new();
                        proof {
                            assert(s@ =~= Seq::<char>::empty());
                        }
                        Some(s)
                    },
                }
            },
        };
        let r = Scene {
            revision: self.revision,
            title: self.show_title(view),
            explanation: self.show_explanation(view),
            status: self.status.clone(),
            items,
            selected: if self.menu {
                self.selected
            } else {
                0
            },
            detail,
            detail_offset: if self.detail.is_some() {
                self.offset
            } else {
                usize::MAX
            },
            field: if !self.menu && self.detail.is_none() {
                Some("Message".to_owned())
            } else {
                None
            },
            input: Draft::capture(&self.editor),
            hint: if self.attention_menu {
                "Enter selects request · Esc back".to_owned()
            } else {
                "Enter select/send · Ctrl+P permissions and controls · Ctrl+C cancel · Esc back".to_owned()
            },
            progress: if self.working {
                Some("Waiting for observed outcome…".to_owned())
            } else {
                None
            },
            receipts: Vec::new(),
            composer_prefix: None,
        };
        proof {
            let s = shown(
                self@,
                match c {
                    Some(c) => Some(*c),
                    None => None,
                },
            );
            assert(r@.items =~= s.items);
            assert(r@.receipts =~= s.receipts);
            assert(r@ =~= s);
        }
        r
    }

    fn show_title(&self, c: Option<&Conversation>) -> (r: String)
        ensures
            r@ == title(
                self@,
                match c {
                    Some(c) => Some(*c),
                    None => None,
                },
            ),
    {
        if self.attention_menu {
            return "Needs attention".to_owned();
        }
        match c {
            Some(c) => cat2(c.endpoint.as_str(), " · External agent"),
            None => "External agents".to_owned(),
        }
    }

    fn show_explanation(&self, c: Option<&Conversation>) -> (r: String)
        ensures
            r@ == explanation(
                self@,
                match c {
                    Some(c) => Some(*c),
                    None => None,
                },
            ),
    {
        match c {
            Some(c) => {
                let connection: &'static str = if c.connected {
                    "Connected"
                } else {
                    "Unknown / disconnected"
                };
                let head = cat5(c.cwd.as_str(), " · ", connection, " · ", c.status.as_str());
                cat4(
                    head.as_str(),
                    " · ",
                    decimal(c.permissions.len() as u64).as_str(),
                    " pending permissions",
                )
            },
            None => if self.attention_menu {
                "Pending requests first. Refresh to read current activity.".to_owned()
            } else {
                "Select an operator-configured endpoint or observed conversation.".to_owned()
            },
        }
    }
}

fn find_permission(c: &Conversation, generation: u64, request: u64) -> (r: bool)
    ensures
        r == is_pending(*c, generation, request),
{
    let mut i: usize = 0;
    while i < c.permissions.len()
        invariant
            i <= c.permissions@.len(),
            forall|j: int|
                0 <= j < i ==> !((#[trigger] c.permissions@[j]).generation == generation
                    && c.permissions@[j].id == request),
        decreases c.permissions@.len() - i,
    {
        if c.permissions[i].generation == generation && c.permissions[i].id == request {
            proof {
                assert(c.permissions@[i as int].generation == generation);
            }
            return true;
        }
        i += 1;
    }
    false
}

fn find_answer(v: &Vec<(String, Choice)>, generation: u64, request: u64) -> (r: Option<usize>)
    ensures
        match r {
            Some(i) => answer_at(external::items_of(v@), generation, request, v@.len() as int)
                == Some(i as int),
            None => answer_at(external::items_of(v@), generation, request, v@.len() as int) is None,
        },
{
    let ghost all = external::items_of(v@);
    let mut out: Option<usize> = None;
    let mut i: usize = 0;
    while i < v.len()
        invariant
            i <= v@.len(),
            all == external::items_of(v@),
            match out {
                Some(k) => answer_at(all, generation, request, i as int) == Some(k as int),
                None => answer_at(all, generation, request, i as int) is None,
            },
        decreases v@.len() - i,
    {
        proof {
            assert(all[i as int].1 == v@[i as int].1);
        }
        let is: bool = match v[i].1 {
            Choice::Control(Control::Answer { generation: g, permission, option: _ }) => g
                == generation && permission == request,
            _ => false,
        };
        if out.is_none() && is {
            out = Some(i);
        }
        i += 1;
    }
    out
}

/// What the screen is called.
pub open spec fn title(v: UiView, c: Option<Conversation>) -> Seq<char> {
    if v.attention_menu {
        "Needs attention"@
    } else {
        match c {
            Some(c) => c.endpoint@ + " · External agent"@,
            None => "External agents"@,
        }
    }
}

/// What the screen says of the conversation.
pub open spec fn explanation(v: UiView, c: Option<Conversation>) -> Seq<char> {
    match c {
        Some(c) => c.cwd@ + " · "@ + (if c.connected {
            "Connected"@
        } else {
            "Unknown / disconnected"@
        }) + " · "@ + c.status@ + " · "@ + number::digits(c.permissions@.len())
            + " pending permissions"@,
        None => if v.attention_menu {
            "Pending requests first. Refresh to read current activity."@
        } else {
            "Select an operator-configured endpoint or observed conversation."@
        },
    }
}

/// The screen.
pub open spec fn shown(v: UiView, c: Option<Conversation>) -> SceneView {
    let view = if v.attention_menu {
        None
    } else {
        c
    };
    SceneView {
        revision: v.revision,
        title: title(v, view),
        explanation: explanation(v, view),
        status: v.status,
        items: if v.menu {
            Seq::new(v.items.len(), |i: int| v.items[i].0)
        } else {
            seq![]
        },
        selected: if v.menu {
            v.selected
        } else {
            0
        },
        detail: match v.detail {
            Some(s) => Some(s),
            None => if v.menu {
                None
            } else {
                match view {
                    Some(c) => Some(
                        external::tail_of(
                            external::transcript_of(c.blocks@, c.blocks@.len() as int),
                            external::TAIL_BYTES as int,
                        ),
                    ),
                    None => Some(seq![]),
                }
            },
        },
        detail_offset: if v.detail is Some {
            v.offset
        } else {
            usize::MAX
        },
        field: if !v.menu && v.detail is None {
            Some("Message"@)
        } else {
            None
        },
        input: DraftView { text: v.editor.text, cursor: v.editor.cursor },
        hint: if v.attention_menu {
            "Enter selects request · Esc back"@
        } else {
            "Enter select/send · Ctrl+P permissions and controls · Ctrl+C cancel · Esc back"@
        },
        progress: if v.working {
            Some("Waiting for observed outcome…"@)
        } else {
            None
        },
        receipts: seq![],
        composer_prefix: None,
    }
}

/// A message whose outcome is not known is not sent again by another press of the key: it must be
/// changed first.
pub proof fn law_uncertain_is_not_resent(v: UiView, problem: Seq<char>, c: Option<Conversation>)
    requires
        v.pending_submit,
        v.deferred is None,
        v.permission_focus is None,
    ensures
        v.told(EventView::Failed(problem), seq![], c).0.uncertain,
        v.told(EventView::Failed(problem), seq![], c).0.submitting().1 is None,
{
    reveal(UiView::taking);
    reveal(UiView::failing);
    reveal(UiView::focused);
    reveal(UiView::settling);
}

/// While something is being asked no choice asks for anything else.
pub proof fn law_one_at_a_time(v: UiView, choice: Choice)
    requires
        v.working,
    ensures
        v.choosing(choice) == (v, None::<Request>),
{
}

/// What is written in a conversation comes back with it, after another was opened.
pub proof fn law_draft_comes_back(v: UiView, id: Seq<char>)
    requires
        v.draft_id == Some(id),
        external::with_draft(v.drafts, id, v.editor.text).len() <= external::KEPT_DRAFTS,
        external::draft_bytes(external::with_draft(v.drafts, id, v.editor.text))
            <= external::KEPT_BYTES,
        v.active,
    ensures
        v.remembered().taking(EventView::Attached { id, notice: None }, seq![]).0.editor.text
            == v.editor.text,
{
    reveal(UiView::taking);
    reveal(UiView::attaching);
    external::law_draft_found(v.drafts, id, v.editor.text);
}

/// A message is sent where it is not blank, nothing is under way, a conversation is attached and the
/// outcome of the last one is known.
pub proof fn law_external_submits(v: UiView)
    ensures
        v.submitting().1 == (if !v.working && !v.uncertain && v.attached && text::trimmed(
            v.editor.text,
        ).len() > 0 {
            Some(Request::Control(Control::Submit))
        } else {
            None
        }),
        v.submitting().1 is Some ==> v.submitting().0.pending_submit && v.submitting().0.working,
{
}

/// The keys of the screen: Control and C cancels, Control and P lists what can be done, Escape leaves
/// the text that is read, then the menu, then the screen; the arrows move in the list or in the
/// text, by one and by four.
pub proof fn law_external_keys(v: UiView, k: KeyEvent, c: Option<Conversation>)
    requires
        !v.working,
    ensures
        ({
            let (w, request) = v.pressing(k, c);
            let plain = !k.control && !(k.code is Escape);
            &&& k.control && k.code == KeyCode::Char('c') ==> request == (if v.attached {
                Some(Request::Control(Control::Cancel))
            } else {
                None
            })
            &&& k.code is Escape && v.detail is Some ==> w.detail is None && request is None && w.active
                == v.active
            &&& k.code is Escape && v.detail is None && v.menu && v.attached ==> !w.menu && request
                is None && w.active == v.active
            &&& k.code is Escape && v.detail is None && !(v.menu && v.attached) ==> !w.active && (
            request is Some <==> v.attached)
            &&& plain && v.detail is None && v.menu && k.code is Up && v.selected > 0 ==> w.selected
                == v.selected - 1
            &&& plain && v.detail is None && v.menu && k.code is Down && v.selected + 1
                < v.items.len() <= usize::MAX ==> w.selected == v.selected + 1
            &&& plain && v.detail is None && v.menu && k.code is Enter && v.selected < v.items.len()
                ==> (w, request) == v.choosing(v.items[v.selected as int].1)
            &&& plain && v.detail is Some && (k.code is Up || k.code is PageUp) && v.offset >= 4
                ==> w.offset == v.offset - 4
            &&& plain && v.detail is Some && (k.code is Down || k.code is PageDown) && v.offset + 4
                <= usize::MAX ==> w.offset == v.offset + 4
            &&& plain && v.detail is None && !v.menu ==> (w, request) == v.submitting()
        }),
{
}

/// What each choice asks for; a conversation that is opened or started takes the place of the one
/// that is attached, which is then retired.
pub proof fn law_external_choices(v: UiView, id: u64, source: u64, start: usize, c: Control)
    requires
        !v.working,
        v.available,
        v.attention,
    ensures
        v.choosing(Choice::Open(id)).1 == Some(Request::Open { id, retire: v.attached }),
        v.choosing(Choice::Start { endpoint: id }).1 == Some(
            Request::Start { endpoint: id, retire: v.attached },
        ),
        v.choosing(Choice::Catalog(Some(id))).1 == Some(Request::Catalog(Some(id))),
        v.choosing(Choice::Attention).1 == Some(Request::Attention { retire: v.attached }),
        v.choosing(Choice::Control(c)).1 == (if v.attached {
            Some(Request::Control(c))
        } else {
            None
        }),
        v.choosing(Choice::Source { source, start }).1 == (if v.attached {
            Some(Request::Source { source, start })
        } else {
            None
        }),
        !v.choosing(Choice::Open(id)).0.attached,
        v.choosing(Choice::Open(id)).0.working,
{
}

/// Without the owner nothing is opened, and while something is under way no choice counts.
pub proof fn law_external_unavailable(v: UiView, id: u64, c: Choice)
    ensures
        !v.working && !v.available ==> v.choosing(Choice::Open(id)).1 is None && v.choosing(
            Choice::Catalog(None),
        ).1 is None,
        v.working ==> v.choosing(c) == (v, None::<Request>),
        v.working || !v.attached ==> v.controlling(Control::Cancel) == (v, None::<Request>),
{
}

/// What needs attention is opened where it is: a conversation of this program with its own request,
/// one elsewhere with the permission that is then looked for.
pub proof fn law_attending(v: UiView, position: Position, request: u64, question: bool)
    ensures
        position.native ==> v.attending(
            position,
            Some(Target::Native { request, question }),
        ).1 == Some(Request::Native { position, request: Some(request) }),
        position.native ==> v.attending(position, None).1 == Some(
            Request::Native { position, request: None },
        ),
        !position.native && v.available && v.attention ==> v.attending(position, None).1 == Some(
            Request::OpenAttention { position, retire: v.attached },
        ),
        !position.native && !(v.available && v.attention) ==> v.attending(position, None).1 is None,
{
}

/// A message that was admitted leaves the editor, unless something else was written meanwhile; one
/// that failed while it was under way has an outcome that is not known.
pub proof fn law_external_outcomes(v: UiView, s: Seq<char>, problem: Seq<char>)
    ensures
        v.editor.text == s ==> v.admitted(s).editor.text.len() == 0,
        v.editor.text != s ==> v.admitted(s).editor == v.editor,
        v.failing(problem).status == problem,
        v.failing(problem).uncertain <==> v.uncertain || v.pending_submit,
        v.failing(problem).editor == v.editor,
{
    reveal(UiView::admitted);
    reveal(UiView::failing);
}

/// An attached conversation comes with its own draft, of at most 128 KiB, and with a known outcome;
/// where the screen was left meanwhile it is discarded.
pub proof fn law_attached(v: UiView, id: Seq<char>, notice: Option<Seq<char>>)
    ensures
        v.active ==> {
            let (w, request) = v.attaching(id, notice);
            &&& request is None
            &&& w.attached && !w.menu && !w.uncertain
            &&& w.draft_id == Some(id)
            &&& w.editor.limit == 131072
            &&& external::draft_at(v.drafts, id) matches Some(s) ==> w.editor.text == s
            &&& external::draft_at(v.drafts, id) is None ==> w.editor.text.len() == 0
        },
        !v.active ==> v.attaching(id, notice) == (v, Some(Request::Discard)),
{
    reveal(UiView::attaching);
}

/// A part of a source is shown from where it was read, and the next part begins where it ends, as
/// long as there is more.
pub proof fn law_sourced(v: UiView, source: u64, start: usize, bytes: Seq<u8>, s: Seq<char>)
    requires
        start + 65536 <= usize::MAX,
        bytes.len() <= 65536,
    ensures
        ({
            let w = v.sourced(source, start, bytes, s);
            &&& w.offset == 0
            &&& bytes.len() > 8000 ==> w.next_source == Some((source, (start + 8000) as usize))
            &&& bytes.len() <= 8000 ==> w.next_source is None
            &&& w.detail is Some
        }),
{
    reveal(UiView::sourced);
}

/// Whether a key is written into the message.
pub proof fn law_external_writes(v: UiView, k: KeyEvent)
    requires
        v.detail is None,
        !v.menu,
    ensures
        v.writes(k) <==> !(k.code is Escape) && !(k.code is Enter && !k.shift) && !(k.control && (
        k.code == KeyCode::Char('p') || k.code == KeyCode::Char('c'))),
{
}

/// The answer that is looked for among the entries is one to that very request.
pub proof fn law_answer_at(
    v: Seq<(Seq<char>, Choice)>,
    generation: u64,
    request: u64,
    n: int,
)
    requires
        0 <= n <= v.len(),
    ensures
        match answer_at(v, generation, request, n) {
            Some(i) => 0 <= i < n && answers(v[i].1, generation, request) && forall|j: int|
                0 <= j < i ==> !answers((#[trigger] v[j]).1, generation, request),
            None => forall|j: int|
                0 <= j < n ==> !answers((#[trigger] v[j]).1, generation, request),
        },
        forall|g: u64, p: u64, option: u64| #[trigger]
            answers(
                Choice::Control(Control::Answer { generation: g, permission: p, option }),
                generation,
                request,
            ) <==> g == generation && p == request,
    decreases n,
{
    if n > 0 {
        law_answer_at(v, generation, request, n - 1);
    }
}

/// An event ends the waiting, and what was put off is then done.
pub proof fn law_external_told(v: UiView, problem: Seq<char>, c: Option<Conversation>)
    requires
        v.active,
        v.permission_focus is None,
        v.deferred is None,
    ensures
        ({
            let (w, request) = v.told(EventView::Failed(problem), seq![], c);
            &&& !w.working && !w.pending_submit
            &&& w.status == problem
            &&& request is None
            &&& w.revision != v.revision
        }),
{
    reveal(UiView::attaching);
    reveal(UiView::admitted);
    reveal(UiView::listing);
    reveal(UiView::going_native);
    reveal(UiView::observed);
    reveal(UiView::failing);
    reveal(UiView::sourced);
    reveal(UiView::taking);
    reveal(UiView::focused);
    reveal(UiView::settling);
}

/// What is told of a conversation names where it runs, whether it is connected, what its agent says
/// and how many permissions it waits for.
pub proof fn law_explanation(v: UiView, c: Conversation)
    ensures
        c.connected ==> explanation(v, Some(c)) == c.cwd@ + " · "@ + "Connected"@ + " · "@
            + c.status@ + " · "@ + number::digits(c.permissions@.len()) + " pending permissions"@,
        !c.connected ==> explanation(v, Some(c)) == c.cwd@ + " · "@ + "Unknown / disconnected"@
            + " · "@ + c.status@ + " · "@ + number::digits(c.permissions@.len())
            + " pending permissions"@,
        v.attention_menu ==> explanation(v, None)
            == "Pending requests first. Refresh to read current activity."@,
        !v.attention_menu ==> explanation(v, None)
            == "Select an operator-configured endpoint or observed conversation."@,
{
}

} // verus!
