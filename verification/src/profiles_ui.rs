//! The screen on which host profiles are worked on.
use vstd::prelude::*;
use vstd::string::*;
use crate::editor;
use crate::editor::{Editor, EditorView};
use crate::keys::{KeyCode, KeyEvent, MouseEvent, MouseKind};
use crate::profiles;
use crate::profiles::{
    After, ChangeKind, Choice, Command, Grantee, LeafView, Page, PageView,
};
use crate::scene;
use crate::scene::{Draft, DraftView, Scene, SceneView, Shown};
use crate::text;

verus! {

/// The bytes of a configuration that is entered.
pub const CONFIGURATION_BYTES: usize = 65536;

/// The bytes of a name that is entered.
pub const PRINCIPAL_BYTES: usize = 256;

/// What is entered.
#[derive(Clone, Copy, Debug, PartialEq, Eq, Structural)]
pub enum Form {
    Configuration(u64),
    Grant(u64, ChangeKind, bool),
}

/// The screen.
#[derive(Debug)]
pub struct Ui {
    active: bool,
    /// Whether the owner can be asked, and whether it is being asked.
    available: bool,
    working: bool,
    after: After,
    known: LeafView,
    page: Page,
    detail_open: bool,
    selected: usize,
    revision: u64,
    offset: usize,
    status: String,
    form: Option<Form>,
    editor: Editor,
    /// The profile and part that were shown last.
    profile: String,
    leaf: String,
}

/// What a [`Ui`] says.
pub struct UiView {
    pub active: bool,
    pub available: bool,
    pub working: bool,
    pub after: After,
    pub known: LeafView,
    pub page: PageView,
    pub detail_open: bool,
    pub selected: usize,
    pub revision: u64,
    pub offset: usize,
    pub status: Seq<char>,
    pub form: Option<Form>,
    pub editor: EditorView,
    pub profile: Seq<char>,
    pub leaf: Seq<char>,
}

impl View for Ui {
    type V = UiView;

    closed spec fn view(&self) -> UiView {
        UiView {
            active: self.active,
            available: self.available,
            working: self.working,
            after: self.after,
            known: self.known,
            page: self.page@,
            detail_open: self.detail_open,
            selected: self.selected,
            revision: self.revision,
            offset: self.offset,
            status: self.status@,
            form: self.form,
            editor: self.editor@,
            profile: self.profile@,
            leaf: self.leaf@,
        }
    }
}

/// The number after, from the largest to zero.
pub open spec fn next_revision(n: u64) -> u64 {
    if n == u64::MAX {
        0
    } else {
        (n + 1) as u64
    }
}

impl UiView {
    /// The screen before it was opened.
    pub open spec fn fresh(available: bool, known: LeafView) -> UiView {
        UiView {
            active: false,
            available,
            working: false,
            after: After::Browse,
            known,
            page: PageView {
                title: "Host Profiles"@,
                explanation: seq![],
                items: seq![],
                details: false,
            },
            detail_open: false,
            selected: 0,
            revision: 0,
            offset: 0,
            status: seq![],
            form: None,
            editor: EditorView::blank(),
            profile: seq![],
            leaf: seq![],
        }
    }

    /// A page is shown from its start.
    pub open spec fn showing(self, page: PageView) -> UiView {
        UiView {
            page,
            detail_open: page.details,
            selected: 0,
            offset: 0,
            form: None,
            editor: EditorView::blank(),
            revision: next_revision(self.revision),
            ..self
        }
    }

    /// The first page.
    pub open spec fn browsing(self) -> UiView {
        self.showing(profiles::browse_view(self.known))
    }

    /// The page of a part, whose names are kept.
    pub open spec fn showing_leaf(self, handle: u64) -> UiView {
        let found = match self.known.catalog {
            Some(c) => profiles::leaf_at(c.leaves@, handle, c.leaves@.len() as int),
            None => None,
        };
        let named = match found {
            Some(l) => UiView { profile: l.target.profile@, leaf: l.target.leaf@, ..self },
            None => self,
        };
        named.showing(profiles::leaf_page(self.known, handle))
    }

    /// The page of the proposal with a number, or the first page where it is gone.
    pub open spec fn reviewing(self, ticket: u64) -> UiView {
        match preview_at(self.known.previews@, ticket, self.known.previews@.len() as int) {
            Some(i) => self.showing(
                profiles::review_view(self.known, self.known.previews@[i]),
            ),
            None => self.browsing(),
        }
    }

    /// What asking the owner leads to.
    pub open spec fn running(self, command: Command, after: After) -> (UiView, Option<Command>) {
        if self.working {
            (
                UiView { status: "The current Profile operation is still running"@, ..self },
                None,
            )
        } else if !self.available {
            (UiView { status: "Host Profile management is unavailable"@, ..self }, None)
        } else {
            (
                UiView {
                    after,
                    status: "Waiting for Profile owner…"@,
                    working: true,
                    ..self
                },
                Some(command),
            )
        }
    }

    /// What a choice leads to.
    pub open spec fn choosing(self, c: Choice) -> (UiView, Option<Command>) {
        match c {
            Choice::Run(command, after) => self.running(command, after),
            Choice::Leaf(target) => (self.showing_leaf(target), None),
            Choice::Review(ticket) => (self.reviewing(ticket), None),
            Choice::Configuration(target) => (
                self.entering(
                    "Replace leaf configuration"@,
                    "Enter the complete JSON replacement. Review follows preparation."@,
                    Form::Configuration(target),
                    CONFIGURATION_BYTES,
                ),
                None,
            ),
            Choice::GrantKind(target) => (
                self.showing(profiles::grant_kind_view(self.profile, self.leaf, target)),
                None,
            ),
            Choice::GrantPrincipal(target, kind) => (
                self.showing(
                    profiles::grant_principal_page(
                        self.known,
                        self.profile,
                        self.leaf,
                        target,
                        kind,
                    ),
                ),
                None,
            ),
            Choice::GrantInput(target, kind, agent) => (
                self.entering(
                    "Grant an exact change"@,
                    "Enter the exact principal ID to receive this leaf operation."@,
                    Form::Grant(target, kind, agent),
                    PRINCIPAL_BYTES,
                ),
                None,
            ),
            Choice::Grants(offset) => (
                self.showing(profiles::grants_page(self.known, offset)),
                None,
            ),
            Choice::Receipts(offset) => (
                self.showing(profiles::receipts_page(self.known, offset)),
                None,
            ),
            Choice::Browse => (self.browsing(), None),
            Choice::Close => (UiView { active: false, ..self }, None),
        }
    }

    /// Something is entered.
    pub open spec fn entering(
        self,
        title: Seq<char>,
        explanation: Seq<char>,
        form: Form,
        limit: usize,
    ) -> UiView {
        UiView {
            form: Some(form),
            editor: EditorView { limit: limit as nat, ..EditorView::blank() },
            ..self.showing(PageView { title, explanation, items: seq![], details: false })
        }
    }

    /// What submitting what was entered leads to.
    pub open spec fn submitting(self, valid: bool) -> (UiView, Option<Command>) {
        match self.form {
            None => (self, None),
            Some(Form::Configuration(target)) => self.running(
                Command::Configuration { target },
                After::Review,
            ),
            Some(Form::Grant(target, operation, agent)) => if !valid {
                (UiView { status: "Enter a valid exact principal ID"@, ..self }, None)
            } else if self.known.grants is None {
                (UiView { status: "Read current grants first"@, ..self }, None)
            } else {
                self.running(
                    Command::Grant { grantee: Grantee::Entered { agent }, target, operation },
                    After::Leaf(target),
                )
            },
        }
    }

    /// Whether a key is written into what is entered.
    pub open spec fn writes(self, k: KeyEvent) -> bool {
        k.code != KeyCode::Escape && !self.working && !self.detail_open && self.form is Some && !(
        k.code == KeyCode::Enter && !k.shift)
    }

    /// What a key leads to that is not written into what is entered.
    pub open spec fn pressing(self, k: KeyEvent, valid: bool) -> (UiView, Option<Command>) {
        if k.code == KeyCode::Escape {
            (
                if self.form is Some {
                    self.browsing()
                } else if self.page.details && !self.detail_open {
                    UiView { detail_open: true, ..self }
                } else {
                    UiView { active: false, ..self }
                },
                None,
            )
        } else if self.working {
            (self, None)
        } else if self.detail_open {
            (
                match k.code {
                    KeyCode::Up | KeyCode::PageUp => UiView {
                        offset: back_four(self.offset),
                        ..self
                    },
                    KeyCode::Down | KeyCode::PageDown => UiView {
                        offset: on_four(self.offset),
                        ..self
                    },
                    KeyCode::Enter => UiView { detail_open: false, ..self },
                    _ => self,
                },
                None,
            )
        } else if self.form is Some {
            self.submitting(valid)
        } else {
            match k.code {
                KeyCode::Up => (
                    UiView {
                        selected: scene::step_up(self.selected as int) as usize,
                        ..self
                    },
                    None,
                ),
                KeyCode::Down => (
                    UiView {
                        selected: scene::step_down(
                            self.selected as int,
                            self.page.items.len() as int,
                        ) as usize,
                        ..self
                    },
                    None,
                ),
                KeyCode::Enter => if self.selected < self.page.items.len() {
                    self.choosing(self.page.items[self.selected as int].1)
                } else {
                    (self, None)
                },
                _ => (self, None),
            }
        }
    }

    /// What the answer of the owner leads to.
    pub open spec fn told(self, known: LeafView, problem: Option<Seq<char>>) -> UiView {
        let v = UiView {
            working: false,
            known,
            status: match problem {
                Some(s) => s,
                None => match known.notice {
                    Some(s) => s@,
                    None => seq![],
                },
            },
            ..self
        };
        if problem is Some && v.form is Some {
            v
        } else {
            match v.after {
                After::Browse => v.browsing(),
                After::Leaf(target) => v.showing_leaf(target),
                After::Review => if known.previews@.len() > 0 {
                    v.showing(profiles::review_view(known, known.previews@.last()))
                } else {
                    v.browsing()
                },
                After::Receipt => v.showing(profiles::receipt_page(known)),
                After::Grant(target) => v.showing(
                    profiles::grant_kind_view(v.profile, v.leaf, target),
                ),
                After::Grants(offset) => v.showing(profiles::grants_page(known, offset)),
            }
        }
    }
}

/// Four lines back.
pub open spec fn back_four(offset: usize) -> usize {
    if offset >= 4 {
        (offset - 4) as usize
    } else {
        0
    }
}

/// Four lines on.
pub open spec fn on_four(offset: usize) -> usize {
    if offset + 4 <= usize::MAX {
        (offset + 4) as usize
    } else {
        usize::MAX
    }
}

/// Where the proposal with a number stands among the first `n`.
pub open spec fn preview_at(v: Seq<profiles::Preview>, ticket: u64, n: int) -> Option<int>
    decreases n,
{
    if n <= 0 {
        None
    } else {
        match preview_at(v, ticket, n - 1) {
            Some(i) => Some(i),
            None => if v[n - 1].ticket == ticket {
                Some(n - 1)
            } else {
                None
            },
        }
    }
}

fn find_preview(v: &Vec<profiles::Preview>, ticket: u64) -> (r: Option<usize>)
    ensures
        match r {
            Some(i) => i < v@.len() && preview_at(v@, ticket, v@.len() as int) == Some(i as int),
            None => preview_at(v@, ticket, v@.len() as int) is None,
        },
{
    let mut out: Option<usize> = None;
    let mut i: usize = 0;
    while i < v.len()
        invariant
            i <= v@.len(),
            match out {
                Some(k) => k < v@.len() && preview_at(v@, ticket, i as int) == Some(k as int),
                None => preview_at(v@, ticket, i as int) is None,
            },
        decreases v@.len() - i,
    {
        if out.is_none() && v[i].ticket == ticket {
            out = Some(i);
        }
        i += 1;
    }
    out
}

fn find_leaf_names(known: &LeafView, handle: u64) -> (r: Option<(String, String)>)
    ensures
        ({
            let found = match known.catalog {
                Some(c) => profiles::leaf_at(c.leaves@, handle, c.leaves@.len() as int),
                None => None,
            };
            match r {
                Some((p, l)) => found matches Some(x) && x.target.profile@ == p@ && x.target.leaf@
                    == l@,
                None => found is None,
            }
        }),
{
    match &known.catalog {
        None => None,
        Some(c) => {
            let v = &c.leaves;
            let mut out: Option<(String, String)> = None;
            let mut i: usize = 0;
            while i < v.len()
                invariant
                    i <= v@.len(),
                    match out {
                        Some((p, l)) => profiles::leaf_at(v@, handle, i as int) matches Some(x)
                            && x.target.profile@ == p@ && x.target.leaf@ == l@,
                        None => profiles::leaf_at(v@, handle, i as int) is None,
                    },
                decreases v@.len() - i,
            {
                if out.is_none() && v[i].target.handle == handle {
                    out = Some((v[i].target.profile.clone(), v[i].target.leaf.clone()));
                }
                i += 1;
            }
            out
        },
    }
}

impl Ui {
    /// The editor is well formed.
    pub closed spec fn wf(&self) -> bool {
        self.editor.wf()
    }

    /// The screen before it was opened.
    pub fn new(available: bool, known: LeafView) -> (r: Ui)
        ensures
            r.wf(),
            r@ == UiView::fresh(available, known),
    {
        let page = Page {
            title: "Host Profiles".to_owned(),
            explanation: String::new(),
            items: Vec::new(),
            details: false,
        };
        let r = Ui {
            active: false,
            available,
            working: false,
            after: After::Browse,
            known,
            page,
            detail_open: false,
            selected: 0,
            revision: 0,
            offset: 0,
            status: String::new(),
            form: None,
            editor: Editor::default(),
            profile: String::new(),
            leaf: String::new(),
        };
        proof {
            assert(r@.page =~= UiView::fresh(available, known).page);
            assert(r@ =~= UiView::fresh(available, known));
        }
        r
    }

    pub fn active(&self) -> (r: bool)
        ensures
            r == self@.active,
    {
        self.active
    }

    pub fn working(&self) -> (r: bool)
        ensures
            r == self@.working,
    {
        self.working
    }

    /// What was entered.
    pub fn entered(&self) -> (r: &str)
        ensures
            r@ == self@.editor.text,
    {
        self.editor.text()
    }

    /// Closes the screen, once and for all.
    pub fn shutdown(&mut self)
        requires
            old(self).wf(),
        ensures
            final(self).wf(),
            final(self)@ == (UiView { active: false, ..old(self)@ }),
    {
        self.active = false;
    }

    fn run(&mut self, command: Command, after: After) -> (r: Option<Command>)
        requires
            old(self).wf(),
        ensures
            final(self).wf(),
            (final(self)@, r) == old(self)@.running(command, after),
    {
        if self.working {
            self.status = "The current Profile operation is still running".to_owned();
            return None;
        }
        if !self.available {
            self.status = "Host Profile management is unavailable".to_owned();
            return None;
        }
        self.after = after;
        self.status = "Waiting for Profile owner…".to_owned();
        self.working = true;
        Some(command)
    }

    /// Opens the screen and reads the profiles.
    pub fn open(&mut self) -> (r: Option<Command>)
        requires
            old(self).wf(),
        ensures
            final(self).wf(),
            (final(self)@, r) == (UiView { active: true, ..old(self)@ }).running(
                Command::Read { profile: None, after: None },
                After::Browse,
            ),
    {
        self.active = true;
        self.run(Command::Read { profile: None, after: None }, After::Browse)
    }

    fn show(&mut self, page: Page)
        requires
            old(self).wf(),
        ensures
            final(self).wf(),
            final(self)@ == old(self)@.showing(page@),
    {
        self.detail_open = page.details;
        self.page = page;
        self.selected = 0;
        self.offset = 0;
        self.form = None;
        self.editor = Editor::default();
        self.revision = if self.revision == u64::MAX {
            0
        } else {
            self.revision + 1
        };
    }

    fn browse(&mut self)
        requires
            old(self).wf(),
        ensures
            final(self).wf(),
            final(self)@ == old(self)@.browsing(),
    {
        let page = profiles::browse(&self.known);
        self.show(page);
    }

    fn show_leaf(&mut self, handle: u64)
        requires
            old(self).wf(),
        ensures
            final(self).wf(),
            final(self)@ == old(self)@.showing_leaf(handle),
    {
        if let Some((profile, leaf)) = find_leaf_names(&self.known, handle) {
            self.profile = profile;
            self.leaf = leaf;
        }
        let page = profiles::leaf(&self.known, handle);
        self.show(page);
    }

    fn review(&mut self, ticket: u64)
        requires
            old(self).wf(),
        ensures
            final(self).wf(),
            final(self)@ == old(self)@.reviewing(ticket),
    {
        match find_preview(&self.known.previews, ticket) {
            Some(i) => {
                let page = profiles::review(&self.known, &self.known.previews[i]);
                self.show(page);
            },
            None => self.browse(),
        }
    }

    fn enter(&mut self, title: &str, explanation: &str, form: Form, limit: usize)
        requires
            old(self).wf(),
        ensures
            final(self).wf(),
            final(self)@ == old(self)@.entering(title@, explanation@, form, limit),
    {
        let page = Page {
            title: title.to_owned(),
            explanation: explanation.to_owned(),
            items: Vec::new(),
            details: false,
        };
        proof {
            assert(profiles::items_of(page.items@) =~= Seq::<(Seq<char>, Choice)>::empty());
        }
        self.show(page);
        self.editor.set_limit(limit);
        self.form = Some(form);
    }

    /// Does what was chosen. Says what is asked of the owner.
    pub fn take_choice(&mut self, c: Choice) -> (r: Option<Command>)
        requires
            old(self).wf(),
        ensures
            final(self).wf(),
            (final(self)@, r) == old(self)@.choosing(c),
    {
        match c {
            Choice::Run(command, after) => self.run(command, after),
            Choice::Leaf(target) => {
                self.show_leaf(target);
                None
            },
            Choice::Review(ticket) => {
                self.review(ticket);
                None
            },
            Choice::Configuration(target) => {
                self.enter(
                    "Replace leaf configuration",
                    "Enter the complete JSON replacement. Review follows preparation.",
                    Form::Configuration(target),
                    CONFIGURATION_BYTES,
                );
                None
            },
            Choice::GrantKind(target) => {
                let page = profiles::grant_kind(self.profile.as_str(), self.leaf.as_str(), target);
                self.show(page);
                None
            },
            Choice::GrantPrincipal(target, kind) => {
                let page = profiles::grant_principal(
                    &self.known,
                    self.profile.as_str(),
                    self.leaf.as_str(),
                    target,
                    kind,
                );
                self.show(page);
                None
            },
            Choice::GrantInput(target, kind, agent) => {
                self.enter(
                    "Grant an exact change",
                    "Enter the exact principal ID to receive this leaf operation.",
                    Form::Grant(target, kind, agent),
                    PRINCIPAL_BYTES,
                );
                None
            },
            Choice::Grants(offset) => {
                let page = profiles::grants(&self.known, offset);
                self.show(page);
                None
            },
            Choice::Receipts(offset) => {
                let page = profiles::receipts(&self.known, offset);
                self.show(page);
                None
            },
            Choice::Browse => {
                self.browse();
                None
            },
            Choice::Close => {
                self.active = false;
                None
            },
        }
    }

    /// Submits what was entered. `valid` says whether it names an agent or a device.
    pub fn submit(&mut self, valid: bool) -> (r: Option<Command>)
        requires
            old(self).wf(),
        ensures
            final(self).wf(),
            (final(self)@, r) == old(self)@.submitting(valid),
    {
        match self.form {
            None => None,
            Some(Form::Configuration(target)) => self.run(
                Command::Configuration { target },
                After::Review,
            ),
            Some(Form::Grant(target, operation, agent)) => {
                if !valid {
                    self.status = "Enter a valid exact principal ID".to_owned();
                    return None;
                }
                if self.known.grants.is_none() {
                    self.status = "Read current grants first".to_owned();
                    return None;
                }
                self.run(
                    Command::Grant { grantee: Grantee::Entered { agent }, target, operation },
                    After::Leaf(target),
                )
            },
        }
    }

    /// Takes in a pasted text, where something is entered and nothing is being asked.
    pub fn paste(&mut self, s: &str) -> (r: Result<(), &'static str>)
        requires
            old(self).wf(),
        ensures
            final(self).wf(),
            if old(self)@.form is Some && !old(self)@.working {
                &&& editor::inserted(old(self)@.editor, s@, r, final(self)@.editor)
                &&& final(self)@ == (UiView {
                    editor: final(self)@.editor,
                    status: match r {
                        Ok(_) => old(self)@.status,
                        Err(e) => e@,
                    },
                    ..old(self)@
                })
            } else {
                r is Ok && final(self)@ == old(self)@
            },
    {
        if self.form.is_none() || self.working {
            return Ok(());
        }
        let r = self.editor.insert(s);
        if let Err(problem) = r {
            self.status = problem.to_owned();
        }
        r
    }

    /// Acts on a key. Says what is asked of the owner.
    pub fn key(&mut self, k: KeyEvent, valid: bool) -> (r: Option<Command>)
        requires
            old(self).wf(),
        ensures
            final(self).wf(),
            if old(self)@.writes(k) {
                &&& r is None
                &&& exists|e: Result<(), &'static str>|
                    {
                        &&& #[trigger] editor::pressed(
                            old(self)@.editor,
                            k,
                            e,
                            final(self)@.editor,
                        )
                        &&& final(self)@ == (UiView {
                            editor: final(self)@.editor,
                            status: match e {
                                Ok(_) => old(self)@.status,
                                Err(p) => p@,
                            },
                            ..old(self)@
                        })
                    }
            } else {
                (final(self)@, r) == old(self)@.pressing(k, valid)
            },
    {
        let ghost v = self@;
        if k.code == KeyCode::Escape {
            if self.form.is_some() {
                self.browse();
            } else if self.page.details && !self.detail_open {
                self.detail_open = true;
            } else {
                self.active = false;
            }
            return None;
        }
        if self.working {
            return None;
        }
        if self.detail_open {
            match k.code {
                KeyCode::Up => {
                    self.offset = self.offset.saturating_sub(4);
                },
                KeyCode::PageUp => {
                    self.offset = self.offset.saturating_sub(4);
                },
                KeyCode::Down => {
                    self.offset = self.offset.saturating_add(4);
                },
                KeyCode::PageDown => {
                    self.offset = self.offset.saturating_add(4);
                },
                KeyCode::Enter => {
                    self.detail_open = false;
                },
                _ => {},
            }
            return None;
        }
        if self.form.is_some() {
            if k.code == KeyCode::Enter && !k.shift {
                return self.submit(valid);
            }
            let e = self.editor.key(k);
            if let Err(problem) = e {
                self.status = problem.to_owned();
            }
            proof {
                assert(editor::pressed(v.editor, k, e, self@.editor));
            }
            return None;
        }
        match k.code {
            KeyCode::Up => {
                self.selected = scene::up(self.selected);
                None
            },
            KeyCode::Down => {
                self.selected = scene::down(self.selected, self.page.items.len());
                None
            },
            KeyCode::Enter => {
                proof {
                    assert(v.page.items.len() == self.page.items@.len());
                }
                if self.selected < self.page.items.len() {
                    let c = self.page.items[self.selected].1;
                    self.take_choice(c)
                } else {
                    None
                }
            },
            _ => None,
        }
    }

    /// Acts on a click, while the frame shows the entries as they are now.
    pub fn mouse(&mut self, m: MouseEvent, view: &Shown)
        requires
            old(self).wf(),
        ensures
            final(self).wf(),
            final(self)@ == (UiView {
                selected: match view.choice(m.column as int, m.row as int) {
                    Some(index) if old(self)@.form is None && !old(self)@.detail_open
                        && view.choice_revision == old(self)@.revision && m.kind is LeftDown
                        && index < old(self)@.page.items.len() => index,
                    _ => old(self)@.selected,
                },
                ..old(self)@
            }),
    {
        if self.form.is_some() || self.detail_open || view.choice_revision != self.revision
            || !matches!(m.kind, MouseKind::LeftDown) {
            return;
        }
        if let Some(index) = view.choice_at(m.column, m.row) {
            if index < self.page.items.len() {
                self.selected = index;
            }
        }
    }

    /// Takes in what the owner answered.
    pub fn next(&mut self, known: LeafView, result: Result<(), String>)
        requires
            old(self).wf(),
        ensures
            final(self).wf(),
            final(self)@ == old(self)@.told(
                known,
                match result {
                    Ok(_) => None,
                    Err(s) => Some(s@),
                },
            ),
    {
        self.working = false;
        let failed: bool = result.is_err();
        self.status = match result {
            Err(problem) => problem,
            Ok(_) => match &known.notice {
                Some(s) => s.clone(),
                None => String::new(),
            },
        };
        proof {
            if !failed && known.notice is None {
                assert(self.status@ =~= Seq::<char>::empty());
            }
        }
        self.known = known;
        if failed && self.form.is_some() {
            return;
        }
        match self.after {
            After::Browse => self.browse(),
            After::Leaf(target) => self.show_leaf(target),
            After::Review => {
                let n: usize = self.known.previews.len();
                if n > 0 {
                    let page = profiles::review(&self.known, &self.known.previews[n - 1]);
                    self.show(page);
                } else {
                    self.browse();
                }
            },
            After::Receipt => {
                let page = profiles::receipt(&self.known);
                self.show(page);
            },
            After::Grant(target) => {
                let page = profiles::grant_kind(self.profile.as_str(), self.leaf.as_str(), target);
                self.show(page);
            },
            After::Grants(offset) => {
                let page = profiles::grants(&self.known, offset);
                self.show(page);
            },
        }
    }

    /// The screen.
    pub fn scene(&self) -> (r: Scene)
        requires
            self.wf(),
        ensures
            r@ == shown(self@),
    {
        let mut items: Vec<String> = Vec::new();
        if !self.detail_open {
            let mut i: usize = 0;
            while i < self.page.items.len()
                invariant
                    i <= self.page.items@.len(),
                    items@.len() == i,
                    forall|j: int| 0 <= j < i ==> (#[trigger] items@[j])@ == self.page.items@[j].0@,
                decreases self.page.items@.len() - i,
            {
                items.push(self.page.items[i].0.clone());
                i += 1;
            }
        }
        let field: Option<String> = match self.form {
            None => None,
            Some(Form::Configuration(_)) => Some("Complete JSON configuration".to_owned()),
            Some(Form::Grant(_, _, agent)) => Some(
                if agent {
                    "Agent Session ID".to_owned()
                } else {
                    "Device ID".to_owned()
                },
            ),
        };
        let r = Scene {
            revision: self.revision,
            title: self.page.title.clone(),
            explanation: if self.page.details {
                String::new()
            } else {
                self.page.explanation.clone()
            },
            status: self.status.clone(),
            items,
            selected: self.selected,
            detail: if self.detail_open && self.page.details {
                Some(self.page.explanation.clone())
            } else {
                None
            },
            detail_offset: self.offset,
            field,
            input: Draft::capture(&self.editor),
            hint: if self.detail_open {
                "Enter actions · ↑/↓ scroll · Esc back".to_owned()
            } else {
                "Enter select/submit · Shift+Enter line · Esc back; admitted writes continue".to_owned()
            },
            progress: if self.working {
                Some("Waiting for Profile owner…".to_owned())
            } else {
                None
            },
            receipts: Vec::new(),
            composer_prefix: None,
        };
        proof {
            let s = shown(self@);
            assert(r@.items =~= s.items);
            assert(r@.explanation =~= s.explanation);
            assert(r@.receipts =~= s.receipts);
            assert(r@ =~= s);
        }
        r
    }
}

/// The screen.
pub open spec fn shown(v: UiView) -> SceneView {
    SceneView {
        revision: v.revision,
        title: v.page.title,
        explanation: if v.page.details {
            seq![]
        } else {
            v.page.explanation
        },
        status: v.status,
        items: if v.detail_open {
            seq![]
        } else {
            Seq::new(v.page.items.len(), |i: int| v.page.items[i].0)
        },
        selected: v.selected,
        detail: if v.detail_open && v.page.details {
            Some(v.page.explanation)
        } else {
            None
        },
        detail_offset: v.offset,
        field: match v.form {
            None => None,
            Some(Form::Configuration(_)) => Some("Complete JSON configuration"@),
            Some(Form::Grant(_, _, agent)) => Some(
                if agent {
                    "Agent Session ID"@
                } else {
                    "Device ID"@
                },
            ),
        },
        input: DraftView { text: v.editor.text, cursor: v.editor.cursor },
        hint: if v.detail_open {
            "Enter actions · ↑/↓ scroll · Esc back"@
        } else {
            "Enter select/submit · Shift+Enter line · Esc back; admitted writes continue"@
        },
        progress: if v.working {
            Some("Waiting for Profile owner…"@)
        } else {
            None
        },
        receipts: seq![],
        composer_prefix: None,
    }
}

/// While the owner is being asked no key asks it for anything else, and leaving does not either.
pub proof fn law_one_at_a_time(v: UiView, k: KeyEvent, valid: bool)
    requires
        v.working || k.code == KeyCode::Escape,
    ensures
        v.pressing(k, valid).1 is None,
        v.working ==> v.pressing(k, valid).0.working,
{
}

/// What was entered survives a failure.
pub proof fn law_entry_survives(v: UiView, known: LeafView, problem: Seq<char>)
    requires
        v.form is Some,
    ensures
        v.told(known, Some(problem)).form == v.form,
        v.told(known, Some(problem)).editor == v.editor,
        v.told(known, Some(problem)).status == problem,
{
}

/// What was read before it can be done is read first: the entries of a page that is read in full
/// only show once it is left.
pub proof fn law_reviewed_first(v: UiView, ticket: u64)
    requires
        preview_at(v.known.previews@, ticket, v.known.previews@.len() as int) is Some,
    ensures
        v.reviewing(ticket).detail_open,
        shown(v.reviewing(ticket)).items.len() == 0,
{
}

/// A command is given to the owner where it is there and nothing else is under way; otherwise the
/// reason is told and nothing is given.
pub proof fn law_runs(v: UiView, command: Command, after: After)
    ensures
        v.running(command, after).1 == (if !v.working && v.available {
            Some(command)
        } else {
            None
        }),
        !v.working && v.available ==> v.running(command, after).0.working && v.running(
            command,
            after,
        ).0.after == after,
        v.working || !v.available ==> v.running(command, after).0 == (UiView {
            status: v.running(command, after).0.status,
            ..v
        }),
{
}

/// The keys of the screen: Escape leaves what is entered, then the text that is covered, then the
/// screen; the arrows move in the list or in the text, by one and by four; Enter chooses what is
/// selected.
pub proof fn law_profile_keys(v: UiView, k: KeyEvent, valid: bool)
    ensures
        ({
            let (w, command) = v.pressing(k, valid);
            let free = !v.working && !v.detail_open && v.form is None;
            &&& k.code is Escape ==> command is None
            &&& k.code is Escape && v.form is Some ==> w.form is None && w.active == v.active
            &&& k.code is Escape && v.form is None && (!v.page.details || v.detail_open) ==> !w.active
            &&& k.code is Escape && v.form is None && v.page.details && !v.detail_open
                ==> w.detail_open && w.active == v.active
            &&& v.working && !(k.code is Escape) ==> w == v && command is None
            &&& v.detail_open && !v.working && (k.code is Up || k.code is PageUp) ==> w == (UiView {
                offset: if v.offset >= 4 {
                    (v.offset - 4) as usize
                } else {
                    0
                },
                ..v
            })
            &&& v.detail_open && !v.working && (k.code is Down || k.code is PageDown) && v.offset + 4
                <= usize::MAX ==> w == (UiView { offset: (v.offset + 4) as usize, ..v })
            &&& v.detail_open && !v.working && k.code is Enter ==> !w.detail_open && command is None
            &&& free && k.code is Up && v.selected > 0 ==> w == (UiView {
                selected: (v.selected - 1) as usize,
                ..v
            })
            &&& free && k.code is Down && v.selected + 1 < v.page.items.len() ==> w == (UiView {
                selected: (v.selected + 1) as usize,
                ..v
            })
            &&& free && k.code is Enter && v.selected < v.page.items.len() ==> (w, command)
                == v.choosing(v.page.items[v.selected as int].1)
        }),
{
}

/// Entering a configuration takes up to 64 KiB and a principal up to 256 bytes, each for the part
/// that it was chosen for; leaving closes the screen and asks for nothing.
pub proof fn law_profile_choices(v: UiView, target: u64, kind: ChangeKind, agent: bool)
    ensures
        ({
            let configured = v.choosing(Choice::Configuration(target));
            let granted = v.choosing(Choice::GrantInput(target, kind, agent));
            &&& configured.1 is None
            &&& configured.0.form == Some(Form::Configuration(target))
            &&& configured.0.editor.limit == 65536
            &&& configured.0.editor.text.len() == 0
            &&& granted.1 is None
            &&& granted.0.form == Some(Form::Grant(target, kind, agent))
            &&& granted.0.editor.limit == 256
            &&& v.choosing(Choice::Close) == (UiView { active: false, ..v }, None::<Command>)
        }),
{
}

/// What was entered is given to the owner for the part that it was entered for; a principal that is
/// not valid, or grants that were not read, are told of instead.
pub proof fn law_profile_submits(v: UiView, target: u64, operation: ChangeKind, agent: bool)
    requires
        !v.working,
        v.available,
    ensures
        v.form == Some(Form::Configuration(target)) ==> v.submitting(true).1 == Some(
            Command::Configuration { target },
        ) && v.submitting(false).1 == Some(Command::Configuration { target }),
        v.form == Some(Form::Grant(target, operation, agent)) ==> {
            &&& v.submitting(false).1 is None
            &&& v.known.grants is None ==> v.submitting(true).1 is None
            &&& v.known.grants is Some ==> v.submitting(true).1 == Some(
                Command::Grant { grantee: Grantee::Entered { agent }, target, operation },
            )
        },
        v.form is None ==> v.submitting(true) == (v, None::<Command>),
{
}

/// The answer of the owner ends the waiting and shows what was asked for, with what went wrong, if
/// anything did.
pub proof fn law_profile_told(v: UiView, known: LeafView, problem: Seq<char>)
    ensures
        !v.told(known, None).working,
        !v.told(known, Some(problem)).working,
        v.told(known, Some(problem)).status == problem,
        v.told(known, None).known == known,
        v.after is Browse ==> v.told(known, None).page == profiles::browse_view(known),
        v.after is Receipt ==> v.told(known, None).page == profiles::receipt_page(known),
        v.after is Review && known.previews@.len() > 0 ==> v.told(known, None).page
            == profiles::review_view(known, known.previews@[known.previews@.len() - 1]),
        v.after matches After::Grants(offset) ==> v.told(known, None).page == profiles::grants_page(
            known,
            offset,
        ),
{
}

/// Whether a key is written: where something is entered and nothing is under way, all but Escape and
/// a plain Enter.
pub proof fn law_profile_writes(v: UiView, k: KeyEvent)
    requires
        v.form is Some,
        !v.working,
        !v.detail_open,
    ensures
        v.writes(k) <==> !(k.code is Escape) && !(k.code is Enter && !k.shift),
{
}

/// A page that is shown is another than the one before, from its start and without anything
/// entered.
pub proof fn law_showing(v: UiView, page: PageView)
    ensures
        v.showing(page).page == page,
        v.showing(page).selected == 0,
        v.showing(page).offset == 0,
        v.showing(page).form is None,
        v.showing(page).editor.text.len() == 0,
        v.showing(page).revision != v.revision,
        v.showing(page).detail_open == page.details,
{
}

} // verus!
