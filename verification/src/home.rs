//! The client before a conversation is attached: writing, setting up and opening what was saved.
use vstd::prelude::*;
use vstd::string::*;
use crate::editor;
use crate::editor::{Editor, EditorView};
use crate::journal;
use crate::keys::{KeyCode, KeyEvent};
use crate::references::Listed;
use crate::scene;
use crate::scene::{Draft, DraftView, Scene, SceneView};
use crate::setup;
use crate::setup::{Command, CommandView, ModelRef, ModelRefView};
use crate::slash_ui;
use crate::text;
use crate::text::{byte_len, cat3, cat5, same};

verus! {

/// The pages of models that are read at most, and the models of each.
pub const SCAN_PAGES: usize = 16;

pub const PAGE_MODELS: usize = 256;

/// What the settings say of the model to begin with.
#[derive(Debug)]
pub enum DefaultModel {
    /// There are no settings, so that nothing is missing.
    Unmanaged,
    Missing,
    Model(ModelRef),
}

/// What came of looking for the model: whether it is configured, or why that is not known.
pub type Looked = Result<bool, String>;

/// What is told before a conversation can begin, if anything is missing.
pub fn needs_setup(default: &DefaultModel, looked: &Looked) -> (r: Option<String>)
    ensures
        match default {
            DefaultModel::Unmanaged => r is None,
            DefaultModel::Missing => r matches Some(s) && s@
                == "No default model. Use /login or /model to start."@,
            DefaultModel::Model(m) => match looked {
                Ok(true) => r is None,
                Ok(false) => r matches Some(s) && s@ == "Default route "@ + m.deployment@ + "/"@
                    + m.model@ + " is unavailable. Use /login or /model."@,
                Err(problem) => r matches Some(s) && s@ == "Could not read model catalog: "@
                    + problem@ + ". Use /model to refresh or /login; history remains available."@,
            },
        },
{
    match default {
        DefaultModel::Unmanaged => None,
        DefaultModel::Missing => Some(
            "No default model. Use /login or /model to start.".to_owned(),
        ),
        DefaultModel::Model(m) => match looked {
            Ok(true) => None,
            Ok(false) => Some(
                cat5(
                    "Default route ",
                    m.deployment.as_str(),
                    "/",
                    m.model.as_str(),
                    " is unavailable. Use /login or /model.",
                ),
            ),
            Err(problem) => Some(
                cat3(
                    "Could not read model catalog: ",
                    problem.as_str(),
                    ". Use /model to refresh or /login; history remains available.",
                ),
            ),
        },
    }
}

/// Why a conversation could not be opened.
#[derive(Debug)]
pub enum HandleError {
    /// No model is set up.
    SetupRequired(String),
    Other(String),
}

/// What the client begins with.
#[derive(Debug)]
pub enum Startup {
    /// The conversation that was opened.
    Attach,
    /// The screen without one, for the reason that is told.
    Home(String),
    Fail(String),
}

/// What the client begins with. What was saved needs no model to be set up; a fresh conversation
/// does, up to the moment at which it is created.
pub fn startup(resumed: bool, reason: Option<String>, opened: Result<(), HandleError>) -> (r:
    Startup)
    ensures
        match reason {
            Some(s) if !resumed => r matches Startup::Home(t) && t@ == s@,
            _ => match opened {
                Ok(_) => r is Attach,
                Err(HandleError::SetupRequired(e)) => if resumed {
                    r matches Startup::Fail(t) && t@ == e@
                } else {
                    r matches Startup::Home(t) && t@
                        == "Default model configuration is no longer available. Use /login or /model to start."@
                },
                Err(HandleError::Other(e)) => r matches Startup::Fail(t) && t@ == e@,
            },
        },
{
    if !resumed {
        if let Some(s) = reason {
            return Startup::Home(s);
        }
    }
    match opened {
        Ok(_) => Startup::Attach,
        Err(HandleError::SetupRequired(e)) => if resumed {
            Startup::Fail(e)
        } else {
            Startup::Home(
                "Default model configuration is no longer available. Use /login or /model to start.".to_owned(),
            )
        },
        Err(HandleError::Other(e)) => Startup::Fail(e),
    }
}

/// Models, as they were listed.
pub open spec fn models_of(v: Seq<ModelRef>) -> Seq<ModelRefView> {
    Seq::new(v.len(), |i: int| v[i]@)
}

/// What a page of models leads to.
#[derive(Clone, Copy, Debug, PartialEq, Eq, Structural)]
pub enum Scan {
    /// Everything that is wanted was read.
    Done,
    /// Another page is read.
    More,
    /// There is more than is read.
    Bound,
}

/// The models that are read, page by page.
#[derive(Debug)]
pub struct ModelScan {
    pub routes: Vec<ModelRef>,
    pub pages: usize,
}

fn lists(v: &Vec<ModelRef>, m: &ModelRef) -> (r: bool)
    ensures
        r == models_of(v@).contains(m@),
{
    let mut i: usize = 0;
    while i < v.len()
        invariant
            i <= v@.len(),
            forall|j: int| 0 <= j < i ==> models_of(v@)[j] != m@,
        decreases v@.len() - i,
    {
        proof {
            assert(models_of(v@)[i as int] == v@[i as int]@);
        }
        if same(v[i].deployment.as_str(), m.deployment.as_str()) && same(
            v[i].model.as_str(),
            m.model.as_str(),
        ) {
            proof {
                assert(v@[i as int]@ =~= m@);
            }
            return true;
        }
        i += 1;
    }
    false
}

impl ModelScan {
    pub fn new() -> (r: ModelScan)
        ensures
            models_of(r.routes@) == Seq::<ModelRefView>::empty(),
            r.pages == 0,
    {
        let r = ModelScan { routes: Vec::new(), pages: 0 };
        proof {
            assert(models_of(r.routes@) =~= Seq::<ModelRefView>::empty());
        }
        r
    }

    /// What a page leads to: reading stops where there is no more, where the model that is looked
    /// for was read, or after the last page that is read at all.
    pub open spec fn led(
        routes: Seq<ModelRefView>,
        pages: int,
        has_more: bool,
        until: Option<ModelRefView>,
    ) -> Scan {
        if !has_more || (until matches Some(m) && routes.contains(m)) {
            Scan::Done
        } else if pages >= SCAN_PAGES {
            Scan::Bound
        } else {
            Scan::More
        }
    }

    /// Takes in a page.
    pub fn page(&mut self, models: Vec<ModelRef>, has_more: bool, until: Option<&ModelRef>) -> (r:
        Scan)
        requires
            old(self).pages < SCAN_PAGES,
        ensures
            final(self).pages == old(self).pages + 1,
            models_of(final(self).routes@) == models_of(old(self).routes@) + models_of(models@),
            r == ModelScan::led(
                models_of(final(self).routes@),
                final(self).pages as int,
                has_more,
                match until {
                    Some(m) => Some(m@),
                    None => None,
                },
            ),
    {
        let ghost before = models_of(self.routes@);
        let ghost added = models_of(models@);
        let mut models = models;
        self.routes.append(&mut models);
        proof {
            assert(models_of(self.routes@) =~= before + added);
        }
        self.pages += 1;
        if !has_more {
            return Scan::Done;
        }
        if let Some(m) = until {
            if lists(&self.routes, m) {
                return Scan::Done;
            }
        }
        if self.pages >= SCAN_PAGES {
            Scan::Bound
        } else {
            Scan::More
        }
    }

    /// What is told where there is more than is read.
    pub fn bound_problem() -> (r: &'static str)
        ensures
            r@ == "Configured model list exceeds the 4096-entry scan bound"@,
    {
        "Configured model list exceeds the 4096-entry scan bound"
    }
}

/// What can be chosen.
#[derive(Clone, Copy, Debug, PartialEq, Eq, Structural)]
pub enum Choice {
    Session(u64),
    Login,
    Model,
    Recent,
    External,
    Profiles,
    Attention,
    Exit,
    Help,
    MoreSessions,
}

/// A menu.
#[derive(Debug)]
pub struct HomeMenu {
    pub title: &'static str,
    pub hint: &'static str,
    pub items: Vec<(String, Choice)>,
}

/// What a [`HomeMenu`] says.
#[verifier::ext_equal]
pub struct HomeMenuView {
    pub title: Seq<char>,
    pub hint: Seq<char>,
    pub items: Seq<(Seq<char>, Choice)>,
}

pub open spec fn choices_of(v: Seq<(String, Choice)>) -> Seq<(Seq<char>, Choice)> {
    Seq::new(v.len(), |i: int| (v[i].0@, v[i].1))
}

impl View for HomeMenu {
    type V = HomeMenuView;

    open spec fn view(&self) -> HomeMenuView {
        HomeMenuView { title: self.title@, hint: self.hint@, items: choices_of(self.items@) }
    }
}

/// The screen without a conversation.
#[derive(Debug)]
pub struct Home {
    editor: Editor,
    menu: Option<HomeMenu>,
    selected: usize,
    /// The last conversation that was listed.
    recent: Option<u64>,
    status: String,
    copying: bool,
}

/// What a [`Home`] says.
#[verifier::ext_equal]
pub struct HomeView {
    pub editor: EditorView,
    pub menu: Option<HomeMenuView>,
    pub selected: usize,
    pub recent: Option<u64>,
    pub status: Seq<char>,
    pub copying: bool,
}

pub open spec fn menu_of(m: Option<HomeMenu>) -> Option<HomeMenuView> {
    match m {
        Some(m) => Some(m@),
        None => None,
    }
}

impl View for Home {
    type V = HomeView;

    closed spec fn view(&self) -> HomeView {
        HomeView {
            editor: self.editor@,
            menu: menu_of(self.menu),
            selected: self.selected,
            recent: self.recent,
            status: self.status@,
            copying: self.copying,
        }
    }
}

/// What a key does.
#[derive(Clone, Copy, Debug, PartialEq, Eq, Structural)]
pub enum HomeKey {
    /// The list of commands, or the help, took it.
    Slash,
    CloseMenu,
    Quit,
    /// The name of a conversation is copied.
    Copy(u64),
    Up,
    Down,
    Choose,
    Actions,
    Submit,
    Edit,
    Nothing,
}

/// The choice that is selected.
pub open spec fn chosen(v: HomeView) -> Option<Choice> {
    match v.menu {
        Some(m) => if v.selected < m.items.len() {
            Some(m.items[v.selected as int].1)
        } else {
            None
        },
        None => None,
    }
}

/// What a key does. `help` says whether help is shown, and `taken` whether the list of commands took
/// the key; it is asked where neither a menu nor the keys that leave come first.
pub open spec fn keyed(v: HomeView, k: KeyEvent, help: bool, taken: bool) -> HomeKey {
    if help {
        HomeKey::Slash
    } else if v.menu is Some && k.control && k.code == KeyCode::Char('c') {
        HomeKey::CloseMenu
    } else if k.control && k.code == KeyCode::Char('d') && v.editor.text.len() == 0 {
        HomeKey::Quit
    } else if k.control && k.code == KeyCode::Char('c') {
        HomeKey::Quit
    } else if v.menu is None && taken {
        HomeKey::Slash
    } else if k.control && k.code == KeyCode::Char('y') && chosen(v) matches Some(
        Choice::Session(id),
    ) {
        if v.copying {
            HomeKey::Nothing
        } else {
            HomeKey::Copy(chosen(v)->0->Session_0)
        }
    } else if k.code == KeyCode::Escape {
        HomeKey::CloseMenu
    } else if v.menu is Some {
        match k.code {
            KeyCode::Up => HomeKey::Up,
            KeyCode::Down => HomeKey::Down,
            KeyCode::Enter => HomeKey::Choose,
            _ => HomeKey::Nothing,
        }
    } else if k.control && k.code == KeyCode::Char('p') {
        HomeKey::Actions
    } else if (k.code == KeyCode::Enter && !k.shift) || (k.control && k.code == KeyCode::Char(
        's',
    )) {
        HomeKey::Submit
    } else {
        HomeKey::Edit
    }
}

/// Whether the list of commands, or the help, is asked about a key.
pub open spec fn offered(v: HomeView, k: KeyEvent, help: bool) -> bool {
    help || (v.menu is None && !(k.control && (k.code == KeyCode::Char('c') || (k.code
        == KeyCode::Char('d') && v.editor.text.len() == 0))))
}

/// What is done once something was chosen or submitted.
#[derive(Debug)]
pub enum HomeStep {
    Nothing,
    Quit,
    Help,
    External,
    Profiles,
    Attention,
    /// What is set up.
    Setup(Command),
    /// A conversation of the list is opened.
    Open(u64),
    /// A conversation is opened by its name.
    OpenNamed(String),
    /// Conversations are listed, from after the given one.
    List(Option<u64>),
}

/// What a [`HomeStep`] says.
pub enum HomeStepView {
    Nothing,
    Quit,
    Help,
    External,
    Profiles,
    Attention,
    Setup(CommandView),
    Open(u64),
    OpenNamed(Seq<char>),
    List(Option<u64>),
}

impl View for HomeStep {
    type V = HomeStepView;

    open spec fn view(&self) -> HomeStepView {
        match self {
            HomeStep::Nothing => HomeStepView::Nothing,
            HomeStep::Quit => HomeStepView::Quit,
            HomeStep::Help => HomeStepView::Help,
            HomeStep::External => HomeStepView::External,
            HomeStep::Profiles => HomeStepView::Profiles,
            HomeStep::Attention => HomeStepView::Attention,
            HomeStep::Setup(c) => HomeStepView::Setup(c@),
            HomeStep::Open(id) => HomeStepView::Open(*id),
            HomeStep::OpenNamed(s) => HomeStepView::OpenNamed(s@),
            HomeStep::List(after) => HomeStepView::List(*after),
        }
    }
}

/// What a choice leads to.
pub open spec fn choosing(c: Choice, recent: Option<u64>) -> HomeStepView {
    match c {
        Choice::Session(id) => HomeStepView::Open(id),
        Choice::Exit => HomeStepView::Quit,
        Choice::Help => HomeStepView::Help,
        Choice::Login => HomeStepView::Setup(CommandView::Login(None)),
        Choice::External => HomeStepView::External,
        Choice::Profiles => HomeStepView::Profiles,
        Choice::Attention => HomeStepView::Attention,
        Choice::Model => HomeStepView::Setup(CommandView::Models),
        Choice::MoreSessions => HomeStepView::List(recent),
        Choice::Recent => HomeStepView::List(None),
    }
}

/// The menu of actions.
pub open spec fn action_items() -> Seq<(Seq<char>, Choice)> {
    seq![
        ("/login"@, Choice::Login),
        ("/model"@, Choice::Model),
        ("Recent sessions"@, Choice::Recent),
        ("/external"@, Choice::External),
        ("/profiles"@, Choice::Profiles),
        ("/attention"@, Choice::Attention),
        ("Exit"@, Choice::Exit),
        ("/help"@, Choice::Help),
    ]
}

/// The first `n` conversations of a list.
pub open spec fn listed(v: Seq<Listed>, n: int) -> Seq<(Seq<char>, Choice)>
    decreases n,
{
    if n <= 0 {
        seq![]
    } else {
        listed(v, n - 1).push(
            (v[n - 1].name@ + " · "@ + v[n - 1].directory@, Choice::Session(v[n - 1].id)),
        )
    }
}

/// What submitting leads to: only commands do anything without a conversation.
pub open spec fn submitting(v: HomeView, names_session: bool) -> (HomeView, HomeStepView) {
    let emptied = HomeView {
        editor: EditorView {
            text: seq![],
            cursor: 0,
            history: journal::History::empty(),
            ..v.editor
        },
        ..v
    };
    match setup::commanded(v.editor.text, names_session) {
        None => (
            HomeView {
                status:
                    "Choose a model with /login or /model first. Draft retained; nothing was sent."@,
                ..v
            },
            HomeStepView::Nothing,
        ),
        Some(c) => if v.editor.cursor != text::size(v.editor.text) || c is Invalid {
            (
                HomeView {
                    status:
                        "Invalid command or cursor not at end. Draft retained; /help lists usage."@,
                    ..v
                },
                HomeStepView::Nothing,
            )
        } else {
            match c {
                CommandView::Quit => (emptied, HomeStepView::Quit),
                CommandView::Help => (emptied, HomeStepView::Help),
                CommandView::New | CommandView::Effort => (
                    HomeView {
                        status: "Choose a model with /login or /model first. Draft retained."@,
                        ..emptied
                    },
                    HomeStepView::Nothing,
                ),
                CommandView::Resume(None) => (emptied, HomeStepView::List(None)),
                CommandView::Resume(Some(id)) => (emptied, HomeStepView::OpenNamed(id)),
                other => (emptied, HomeStepView::Setup(other)),
            }
        },
    }
}

impl Home {
    /// The editor is well formed.
    pub closed spec fn wf(&self) -> bool {
        self.editor.wf()
    }

    /// The screen, with why it is shown.
    pub fn new(status: String) -> (r: Home)
        ensures
            r.wf(),
            r@ == (HomeView {
                editor: EditorView::blank(),
                menu: None,
                selected: 0,
                recent: None,
                status: status@,
                copying: false,
            }),
    {
        Home {
            editor: Editor::default(),
            menu: None,
            selected: 0,
            recent: None,
            status,
            copying: false,
        }
    }

    /// Hands out what was written.
    pub fn into_editor(self) -> (r: Editor)
        requires
            self.wf(),
        ensures
            r.wf(),
            r@ == self@.editor,
    {
        self.editor
    }

    pub fn editor(&self) -> (r: &Editor)
        requires
            self.wf(),
        ensures
            r.wf(),
            r@ == self@.editor,
    {
        &self.editor
    }

    /// Tells that a conversation is being started with the draft.
    pub fn starting(&mut self)
        requires
            old(self).wf(),
        ensures
            final(self).wf(),
            final(self)@ == (HomeView {
                status: "Starting session… Draft retained."@,
                ..old(self)@
            }),
    {
        self.status = "Starting session… Draft retained.".to_owned();
    }

    /// Tells something.
    pub fn tell(&mut self, status: String)
        requires
            old(self).wf(),
        ensures
            final(self).wf(),
            final(self)@ == (HomeView { status: status@, ..old(self)@ }),
    {
        self.status = status;
    }

    /// Says whether a menu is shown.
    pub fn has_menu(&self) -> (r: bool)
        ensures
            r == (self@.menu is Some),
    {
        self.menu.is_some()
    }

    pub fn status(&self) -> (r: &str)
        ensures
            r@ == self@.status,
    {
        self.status.as_str()
    }

    /// The choice that is selected.
    fn selected_choice(&self) -> (r: Option<Choice>)
        ensures
            r == chosen(self@),
    {
        match &self.menu {
            Some(m) => if self.selected < m.items.len() {
                Some(m.items[self.selected].1)
            } else {
                None
            },
            None => None,
        }
    }

    /// What a key does.
    pub fn route(&self, k: KeyEvent, help: bool, taken: bool) -> (r: HomeKey)
        requires
            self.wf(),
        ensures
            r == keyed(self@, k, help, taken),
    {
        if help {
            return HomeKey::Slash;
        }
        if self.menu.is_some() && k.control && k.code == KeyCode::Char('c') {
            return HomeKey::CloseMenu;
        }
        if k.control && k.code == KeyCode::Char('d') && self.editor.text().is_empty() {
            return HomeKey::Quit;
        }
        if k.control && k.code == KeyCode::Char('c') {
            return HomeKey::Quit;
        }
        if self.menu.is_none() && taken {
            return HomeKey::Slash;
        }
        if k.control && k.code == KeyCode::Char('y') {
            if let Some(Choice::Session(id)) = self.selected_choice() {
                return if self.copying {
                    HomeKey::Nothing
                } else {
                    HomeKey::Copy(id)
                };
            }
        }
        if k.code == KeyCode::Escape {
            return HomeKey::CloseMenu;
        }
        if self.menu.is_some() {
            return match k.code {
                KeyCode::Up => HomeKey::Up,
                KeyCode::Down => HomeKey::Down,
                KeyCode::Enter => HomeKey::Choose,
                _ => HomeKey::Nothing,
            };
        }
        if k.control && k.code == KeyCode::Char('p') {
            return HomeKey::Actions;
        }
        if (k.code == KeyCode::Enter && !k.shift) || (k.control && k.code == KeyCode::Char('s')) {
            return HomeKey::Submit;
        }
        HomeKey::Edit
    }

    /// Takes in a key: the list of commands, or the help, is asked about it first, unless it closes
    /// or quits. Says what is to be done.
    pub fn key(&mut self, slash: &mut slash_ui::Ui, k: KeyEvent) -> (r: HomeKey)
        requires
            old(self).wf(),
            old(slash).wf(),
            old(slash)@.fits(k, old(self)@.editor.text),
        ensures
            final(self).wf(),
            final(slash).wf(),
            final(self)@ == (HomeView { editor: final(self)@.editor, ..old(self)@ }),
            if offered(old(self)@, k, old(slash)@.help) {
                exists|taken: bool|
                    #[trigger] old(slash)@.keyed(
                        old(self)@.editor,
                        k,
                        final(slash)@,
                        final(self)@.editor,
                        taken,
                    ) && r == keyed(old(self)@, k, old(slash)@.help, taken)
            } else {
                final(slash)@ == old(slash)@ && final(self)@ == old(self)@ && r == keyed(
                    old(self)@,
                    k,
                    old(slash)@.help,
                    false,
                )
            },
    {
        let help: bool = slash.helping();
        let plain = self.route(k, help, false);
        let closes: bool = k.control && (k.code == KeyCode::Char('c') || (k.code == KeyCode::Char(
            'd',
        ) && self.editor.text().is_empty()));
        if help || (self.menu.is_none() && !closes) {
            let ghost v = self@;
            let ghost s = slash@;
            let taken: bool = slash.key(k, &mut self.editor);
            proof {
                assert(s.keyed(v.editor, k, slash@, self@.editor, taken));
            }
            if taken {
                return HomeKey::Slash;
            }
        }
        plain
    }

    /// Closes the menu.
    pub fn close_menu(&mut self)
        requires
            old(self).wf(),
        ensures
            final(self).wf(),
            final(self)@ == (HomeView { menu: None, ..old(self)@ }),
    {
        self.menu = None;
    }

    /// Takes in that the name of a conversation is being copied.
    pub fn copy(&mut self)
        requires
            old(self).wf(),
        ensures
            final(self).wf(),
            final(self)@ == (HomeView {
                copying: true,
                status: "Copying session ID…"@,
                ..old(self)@
            }),
    {
        self.copying = true;
        self.status = "Copying session ID…".to_owned();
    }

    /// Takes in what came of copying.
    pub fn copied(&mut self, status: String)
        requires
            old(self).wf(),
        ensures
            final(self).wf(),
            final(self)@ == (HomeView { copying: false, status: status@, ..old(self)@ }),
    {
        self.copying = false;
        self.status = status;
    }

    /// Moves the selection one entry up or down.
    pub fn step_menu(&mut self, up: bool)
        requires
            old(self).wf(),
        ensures
            final(self).wf(),
            final(self)@ == (HomeView {
                selected: match old(self)@.menu {
                    Some(m) => (if up {
                        scene::step_up(old(self)@.selected as int)
                    } else {
                        scene::step_down(old(self)@.selected as int, m.items.len() as int)
                    }) as usize,
                    None => old(self)@.selected,
                },
                ..old(self)@
            }),
    {
        if let Some(m) = &self.menu {
            self.selected = if up {
                scene::up(self.selected)
            } else {
                scene::down(self.selected, m.items.len())
            };
        }
    }

    /// Selects the entry at an index, if there is one.
    pub fn select(&mut self, index: usize)
        requires
            old(self).wf(),
        ensures
            final(self).wf(),
            final(self)@ == (HomeView {
                selected: match old(self)@.menu {
                    Some(m) if index < m.items.len() => index,
                    _ => old(self)@.selected,
                },
                ..old(self)@
            }),
    {
        if let Some(m) = &self.menu {
            if index < m.items.len() {
                self.selected = index;
            }
        }
    }

    /// Does what is selected.
    pub fn take_choice(&mut self) -> (r: HomeStep)
        requires
            old(self).wf(),
        ensures
            final(self).wf(),
            match chosen(old(self)@) {
                Some(c) => r@ == choosing(c, old(self)@.recent) && final(self)@ == (HomeView {
                    menu: None,
                    ..old(self)@
                }),
                None => r@ == HomeStepView::Nothing && final(self)@ == old(self)@,
            },
    {
        match self.selected_choice() {
            None => HomeStep::Nothing,
            Some(c) => {
                self.menu = None;
                match c {
                    Choice::Session(id) => HomeStep::Open(id),
                    Choice::Exit => HomeStep::Quit,
                    Choice::Help => HomeStep::Help,
                    Choice::Login => HomeStep::Setup(Command::Login(None)),
                    Choice::External => HomeStep::External,
                    Choice::Profiles => HomeStep::Profiles,
                    Choice::Attention => HomeStep::Attention,
                    Choice::Model => HomeStep::Setup(Command::Models),
                    Choice::MoreSessions => HomeStep::List(self.recent),
                    Choice::Recent => HomeStep::List(None),
                }
            },
        }
    }

    /// Shows the menu of actions.
    pub fn open_actions(&mut self)
        requires
            old(self).wf(),
        ensures
            final(self).wf(),
            final(self)@ == (HomeView {
                selected: 0,
                status: seq![],
                menu: Some(
                    HomeMenuView {
                        title: "Actions"@,
                        hint: "Enter select · Esc back"@,
                        items: action_items(),
                    },
                ),
                ..old(self)@
            }),
    {
        let mut items: Vec<(String, Choice)> = Vec::new();
        items.push(("/login".to_owned(), Choice::Login));
        items.push(("/model".to_owned(), Choice::Model));
        items.push(("Recent sessions".to_owned(), Choice::Recent));
        items.push(("/external".to_owned(), Choice::External));
        items.push(("/profiles".to_owned(), Choice::Profiles));
        items.push(("/attention".to_owned(), Choice::Attention));
        items.push(("Exit".to_owned(), Choice::Exit));
        items.push(("/help".to_owned(), Choice::Help));
        proof {
            assert(choices_of(items@) =~= action_items());
        }
        self.selected = 0;
        self.status = String::new();
        proof {
            assert(self.status@ =~= Seq::<char>::empty());
        }
        self.menu = Some(
            HomeMenu { title: "Actions", hint: "Enter select · Esc back", items },
        );
    }

    /// Shows a page of conversations. `last` names the last of them.
    pub fn show_sessions(&mut self, v: &Vec<Listed>, last: Option<u64>, has_more: bool)
        requires
            old(self).wf(),
        ensures
            final(self).wf(),
            final(self)@ == (HomeView {
                selected: 0,
                recent: last,
                status: seq![],
                menu: Some(
                    HomeMenuView {
                        title: "Recent sessions"@,
                        hint: "Enter opens · Ctrl+Y copy ID · Esc back"@,
                        items: if has_more {
                            listed(v@, v@.len() as int).push(
                                ("More sessions…"@, Choice::MoreSessions),
                            )
                        } else {
                            listed(v@, v@.len() as int)
                        },
                    },
                ),
                ..old(self)@
            }),
    {
        let mut items: Vec<(String, Choice)> = Vec::new();
        let mut i: usize = 0;
        proof {
            assert(choices_of(items@) =~= Seq::<(Seq<char>, Choice)>::empty());
        }
        while i < v.len()
            invariant
                i <= v@.len(),
                choices_of(items@) == listed(v@, i as int),
            decreases v@.len() - i,
        {
            let ghost before = choices_of(items@);
            let label = cat3(v[i].name.as_str(), " · ", v[i].directory.as_str());
            let ghost s = label@;
            items.push((label, Choice::Session(v[i].id)));
            proof {
                assert(choices_of(items@) =~= before.push((s, Choice::Session(v@[i as int].id))));
            }
            i += 1;
        }
        if has_more {
            let ghost before = choices_of(items@);
            items.push(("More sessions…".to_owned(), Choice::MoreSessions));
            proof {
                assert(choices_of(items@) =~= before.push(
                    ("More sessions…"@, Choice::MoreSessions),
                ));
            }
        }
        self.selected = 0;
        self.recent = last;
        self.status = String::new();
        proof {
            assert(self.status@ =~= Seq::<char>::empty());
        }
        self.menu = Some(
            HomeMenu {
                title: "Recent sessions",
                hint: "Enter opens · Ctrl+Y copy ID · Esc back",
                items,
            },
        );
    }

    /// Submits what is written.
    pub fn submit(&mut self, names_session: bool) -> (r: HomeStep)
        requires
            old(self).wf(),
        ensures
            final(self).wf(),
            (final(self)@, r@) == submitting(old(self)@, names_session),
    {
        let command = setup::command(self.editor.text(), names_session);
        match command {
            None => {
                self.status =
                "Choose a model with /login or /model first. Draft retained; nothing was sent.".to_owned();
                HomeStep::Nothing
            },
            Some(c) => {
                let invalid: bool = matches!(c, Command::Invalid);
                if self.editor.cursor() != byte_len(self.editor.text()) || invalid {
                    self.status =
                    "Invalid command or cursor not at end. Draft retained; /help lists usage.".to_owned();
                    return HomeStep::Nothing;
                }
                let _ = self.editor.take();
                match c {
                    Command::Quit => HomeStep::Quit,
                    Command::Help => HomeStep::Help,
                    Command::New => {
                        self.status =
                        "Choose a model with /login or /model first. Draft retained.".to_owned();
                        HomeStep::Nothing
                    },
                    Command::Effort => {
                        self.status =
                        "Choose a model with /login or /model first. Draft retained.".to_owned();
                        HomeStep::Nothing
                    },
                    Command::Resume(None) => HomeStep::List(None),
                    Command::Resume(Some(id)) => HomeStep::OpenNamed(id),
                    other => HomeStep::Setup(other),
                }
            },
        }
    }

    /// Acts on a key in what is written.
    pub fn edit(&mut self, k: KeyEvent)
        requires
            old(self).wf(),
        ensures
            final(self).wf(),
            exists|r: Result<(), &'static str>|
                {
                    &&& #[trigger] editor::pressed(old(self)@.editor, k, r, final(self)@.editor)
                    &&& final(self)@ == (HomeView {
                        editor: final(self)@.editor,
                        status: match r {
                            Ok(_) => old(self)@.status,
                            Err(e) => e@,
                        },
                        ..old(self)@
                    })
                },
    {
        let ghost v = self@;
        let r = self.editor.key(k);
        if let Err(problem) = r {
            self.status = problem.to_owned();
        }
        proof {
            assert(editor::pressed(v.editor, k, r, self@.editor));
        }
    }

    /// Takes in a pasted text, unless the list of commands took it or a menu is shown.
    pub fn paste(&mut self, s: &str, taken: bool)
        requires
            old(self).wf(),
        ensures
            final(self).wf(),
            if taken || old(self)@.menu is Some {
                final(self)@ == old(self)@
            } else {
                exists|r: Result<(), &'static str>|
                    {
                        &&& #[trigger] editor::inserted(
                            old(self)@.editor,
                            s@,
                            r,
                            final(self)@.editor,
                        )
                        &&& final(self)@ == (HomeView {
                            editor: final(self)@.editor,
                            status: match r {
                                Ok(_) => old(self)@.status,
                                Err(e) => e@,
                            },
                            ..old(self)@
                        })
                    }
            },
    {
        if taken || self.menu.is_some() {
            return;
        }
        let ghost v = self@;
        let r = self.editor.insert(s);
        if let Err(problem) = r {
            self.status = problem.to_owned();
        }
        proof {
            assert(editor::inserted(v.editor, s@, r, self@.editor));
        }
    }

    /// The screen below every dialog. `popup` says whether commands are listed.
    pub fn base_scene(&self, popup: bool) -> (r: Scene)
        requires
            self.wf(),
        ensures
            r@ == base(self@, popup),
    {
        let r = Scene {
            revision: 0,
            title: "RSI · No session attached".to_owned(),
            explanation:
                "Connect a provider with /login, or choose a saved model with /model.".to_owned(),
            status: if self.menu.is_some() {
                String::new()
            } else {
                self.status.clone()
            },
            items: Vec::new(),
            selected: 0,
            detail: None,
            detail_offset: 0,
            field: Some(String::new()),
            input: Draft::capture(&self.editor),
            hint: if popup {
                "↑/↓ select · Tab fill · Esc hide".to_owned()
            } else {
                "Enter send · Ctrl+J line · /help".to_owned()
            },
            progress: None,
            receipts: Vec::new(),
            composer_prefix: None,
        };
        proof {
            assert(r@.status =~= base(self@, popup).status);
            assert(r@.items =~= Seq::<Seq<char>>::empty());
            assert(r@.receipts =~= Seq::<Seq<char>>::empty());
            assert(r@.field->0 =~= Seq::<char>::empty());
            assert(r@ =~= base(self@, popup));
        }
        r
    }

    /// The dialog of the menu, where one is shown.
    pub fn menu_scene(&self) -> (r: Option<Scene>)
        requires
            self.wf(),
        ensures
            match self@.menu {
                Some(m) => r matches Some(s) && s@ == menu_dialog(self@, m),
                None => r is None,
            },
    {
        match &self.menu {
            None => None,
            Some(m) => {
                let mut items: Vec<String> = Vec::new();
                let mut i: usize = 0;
                while i < m.items.len()
                    invariant
                        i <= m.items@.len(),
                        items@.len() == i,
                        forall|j: int| 0 <= j < i ==> (#[trigger] items@[j])@ == m.items@[j].0@,
                    decreases m.items@.len() - i,
                {
                    items.push(m.items[i].0.clone());
                    i += 1;
                }
                let r = Scene {
                    revision: 0,
                    title: m.title.to_owned(),
                    explanation: String::new(),
                    status: self.status.clone(),
                    items,
                    selected: self.selected,
                    detail: None,
                    detail_offset: 0,
                    field: None,
                    input: Draft { text: String::new(), cursor: 0 },
                    hint: m.hint.to_owned(),
                    progress: None,
                    receipts: Vec::new(),
                    composer_prefix: None,
                };
                proof {
                    assert(r@.items =~= menu_dialog(self@, m@).items);
                    assert(r@.explanation =~= Seq::<char>::empty());
                    assert(r@.receipts =~= Seq::<Seq<char>>::empty());
                    assert(r@.input.text =~= Seq::<char>::empty());
                    assert(r@ =~= menu_dialog(self@, m@));
                }
                Some(r)
            },
        }
    }
}

/// The screen below every dialog.
pub open spec fn base(v: HomeView, popup: bool) -> SceneView {
    SceneView {
        revision: 0,
        title: "RSI · No session attached"@,
        explanation: "Connect a provider with /login, or choose a saved model with /model."@,
        status: if v.menu is Some {
            seq![]
        } else {
            v.status
        },
        items: seq![],
        selected: 0,
        detail: None,
        detail_offset: 0,
        field: Some(seq![]),
        input: DraftView { text: v.editor.text, cursor: v.editor.cursor },
        hint: if popup {
            "↑/↓ select · Tab fill · Esc hide"@
        } else {
            "Enter send · Ctrl+J line · /help"@
        },
        progress: None,
        receipts: seq![],
        composer_prefix: None,
    }
}

/// The dialog of a menu.
pub open spec fn menu_dialog(v: HomeView, m: HomeMenuView) -> SceneView {
    SceneView {
        revision: 0,
        title: m.title,
        explanation: seq![],
        status: v.status,
        items: Seq::new(m.items.len(), |i: int| m.items[i].0),
        selected: v.selected,
        detail: None,
        detail_offset: 0,
        field: None,
        input: DraftView { text: seq![], cursor: 0 },
        hint: m.hint,
        progress: None,
        receipts: seq![],
        composer_prefix: None,
    }
}

/// Without a conversation nothing that is written is ever sent: it stays where it is, unless it is
/// a command.
pub proof fn law_nothing_is_sent(v: HomeView, names_session: bool)
    requires
        setup::commanded(v.editor.text, names_session) is None,
    ensures
        submitting(v, names_session).1 is Nothing,
        submitting(v, names_session).0.editor == v.editor,
{
}

/// No more than the bound of models is read, and the model that is looked for ends the reading.
pub proof fn law_scan_ends(
    routes: Seq<ModelRefView>,
    pages: int,
    has_more: bool,
    until: Option<ModelRefView>,
)
    ensures
        pages >= SCAN_PAGES ==> !(ModelScan::led(routes, pages, has_more, until) is More),
        (until matches Some(m) && routes.contains(m)) ==> ModelScan::led(
            routes,
            pages,
            has_more,
            until,
        ) is Done,
{
}

/// Reading models goes on while there is more, the one that is looked for was not read, and fewer
/// than sixteen pages were.
pub proof fn law_scan(
    routes: Seq<ModelRefView>,
    pages: int,
    has_more: bool,
    until: Option<ModelRefView>,
)
    ensures
        ({
            let found = until is Some && routes.contains(until->0);
            &&& ModelScan::led(routes, pages, has_more, until) is Done <==> !has_more || found
            &&& ModelScan::led(routes, pages, has_more, until) is Bound <==> has_more && !found
                && pages >= 16
            &&& ModelScan::led(routes, pages, has_more, until) is More <==> has_more && !found
                && pages < 16
        }),
{
}

/// The keys over the composer without a conversation, where nothing else took them.
pub proof fn law_home_keys(v: HomeView, k: KeyEvent)
    requires
        v.menu is None,
    ensures
        ({
            let r = keyed(v, k, false, false);
            let control = |c: char| k.control && k.code == KeyCode::Char(c);
            &&& r is Quit <==> control('c') || (control('d') && v.editor.text.len() == 0)
            &&& r is Submit <==> (k.code is Enter && !k.shift) || control('s')
            &&& r is Actions <==> control('p')
            &&& r is CloseMenu <==> k.code is Escape
            &&& r is Quit || r is Submit || r is Actions || r is CloseMenu || r is Edit
        }),
        keyed(v, k, true, false) is Slash,
        !(k.control && (k.code == KeyCode::Char('c') || (k.code == KeyCode::Char('d')
            && v.editor.text.len() == 0))) ==> keyed(v, k, false, true) is Slash,
{
}

/// The keys over a menu without a conversation: they move in it, choose from it, copy the
/// conversation that is selected, and leave the menu rather than the client.
pub proof fn law_home_menu_keys(v: HomeView, k: KeyEvent, taken: bool)
    requires
        v.menu is Some,
        v.editor.text.len() > 0,
    ensures
        ({
            let r = keyed(v, k, false, taken);
            &&& !(r is Quit) && !(r is Submit) && !(r is Edit) && !(r is Slash)
            &&& r is CloseMenu <==> k.code is Escape || (k.control && k.code == KeyCode::Char('c'))
            &&& r is Up <==> k.code is Up
            &&& r is Down <==> k.code is Down
            &&& r is Choose <==> k.code is Enter
            &&& r matches HomeKey::Copy(id) ==> k.control && k.code == KeyCode::Char('y')
                && !v.copying && chosen(v) == Some(Choice::Session(id))
        }),
{
}

/// What each choice leads to.
pub proof fn law_choices(id: u64, recent: Option<u64>, c: Choice)
    ensures
        choosing(Choice::Session(id), recent) == HomeStepView::Open(id),
        choosing(c, recent) is Quit <==> c is Exit,
        choosing(c, recent) is Help <==> c is Help,
        choosing(c, recent) is External <==> c is External,
        choosing(c, recent) is Profiles <==> c is Profiles,
        choosing(c, recent) is Attention <==> c is Attention,
        choosing(Choice::Login, recent) == HomeStepView::Setup(CommandView::Login(None)),
        choosing(Choice::Model, recent) == HomeStepView::Setup(CommandView::Models),
        choosing(Choice::MoreSessions, recent) == HomeStepView::List(recent),
        choosing(Choice::Recent, recent) == HomeStepView::List(None),
{
}

/// Each entry of the menu of actions says what it does.
pub proof fn law_action_items(i: int)
    requires
        0 <= i < action_items().len(),
    ensures
        ({
            let (label, c) = action_items()[i];
            &&& c is Login ==> label == "/login"@
            &&& c is Model ==> label == "/model"@
            &&& c is Recent ==> label == "Recent sessions"@
            &&& c is External ==> label == "/external"@
            &&& c is Profiles ==> label == "/profiles"@
            &&& c is Attention ==> label == "/attention"@
            &&& c is Exit ==> label == "Exit"@
            &&& c is Help ==> label == "/help"@
            &&& !(c is Session) && !(c is MoreSessions)
        }),
        action_items().len() == 8,
{
}

/// A command on the whole line runs and empties the composer; anything else stays there, and is
/// told why it was not sent.
pub proof fn law_home_commands(v: HomeView, names_session: bool, c: CommandView)
    requires
        setup::commanded(v.editor.text, names_session) == Some(c),
    ensures
        ({
            let (w, step) = submitting(v, names_session);
            let runs = v.editor.cursor == text::size(v.editor.text) && !(c is Invalid);
            &&& !runs ==> step is Nothing && w.editor == v.editor
            &&& runs ==> w.editor.text.len() == 0
            &&& runs ==> (step is Quit <==> c is Quit)
            &&& runs ==> (step is Help <==> c is Help)
            &&& runs && c == CommandView::Resume(None) ==> step == HomeStepView::List(None)
            &&& runs ==> (c matches CommandView::Resume(Some(id)) ==> step
                == HomeStepView::OpenNamed(id))
            &&& runs && (c is New || c is Effort) ==> step is Nothing
            &&& runs && (c is Login || c is Models) ==> step == HomeStepView::Setup(c)
        }),
{
}

/// The choice that is selected is the entry at the selection.
pub proof fn law_chosen(v: HomeView, m: HomeMenuView)
    requires
        v.menu == Some(m),
    ensures
        v.selected < m.items.len() ==> chosen(v) == Some(m.items[v.selected as int].1),
        v.selected >= m.items.len() ==> chosen(v) is None,
{
}

/// The conversations of a list, each with its own.
pub proof fn law_home_listed(v: Seq<Listed>, n: int, i: int)
    requires
        0 <= n <= v.len(),
    ensures
        listed(v, n).len() == n,
        0 <= i < n ==> listed(v, n)[i] == (
            v[i].name@ + " · "@ + v[i].directory@,
            Choice::Session(v[i].id),
        ),
    decreases n,
{
    if n > 0 {
        law_home_listed(v, n - 1, i);
    }
}

/// The dialog of a menu shows its entries in order, the selection and what is told of it, and nothing
/// that is written.
pub proof fn law_menu_dialog(v: HomeView, m: HomeMenuView, i: int)
    requires
        0 <= i < m.items.len(),
    ensures
        menu_dialog(v, m).items.len() == m.items.len(),
        menu_dialog(v, m).items[i] == m.items[i].0,
        menu_dialog(v, m).title == m.title,
        menu_dialog(v, m).status == v.status,
        menu_dialog(v, m).hint == m.hint,
        menu_dialog(v, m).selected == v.selected,
        menu_dialog(v, m).input.text.len() == 0,
        menu_dialog(v, m).field is None,
        menu_dialog(v, m).detail is None,
{
}

} // verus!
