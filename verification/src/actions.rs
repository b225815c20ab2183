//! What can be done from a menu or from a shown text.
//!
//! Conversations, references, requests and the like are named by numbers that their owners give.
use vstd::prelude::*;
use vstd::string::*;
use crate::scene;

verus! {

/// Something that is asked of the owner of the text search.
#[derive(Clone, Copy, Debug, PartialEq, Eq, Structural)]
pub enum HistoryRequest {
    Search { scope: u64, query: u64, after: Option<u64> },
    Advance { scope: u64 },
    Rebuild { scope: u64 },
    Read { scope: u64, hit: u64, offset: u64 },
    Freeze { scope: u64, hit: u64, start: u64, end: u64 },
}

/// Something that is asked of the owner of the plugins.
#[derive(Clone, Copy, Debug, PartialEq, Eq, Structural)]
pub enum PluginsCommand {
    Refresh,
    SelectHost,
    SelectPreset,
    SelectSession,
    ExaStatus,
    ExaUnset,
    McpStatus,
    /// All servers, or the one of a number.
    McpRefresh(Option<u64>),
    /// The server of a number.
    McpCredentialUnset(u64),
    /// A page of what a ticket was given for.
    Page { ticket: u64, offset: usize },
}

/// Something that is asked of the owner of the files. A page is named by the number that its owner
/// gave it.
#[derive(Clone, Copy, Debug, PartialEq, Eq, Structural)]
pub enum FileRequest {
    /// The directory of the conversation.
    OpenRoot,
    /// The directory that the first bytes of the path of a page name.
    OpenPrefix { page: u64, length: usize },
    /// An entry of the directory of a page.
    OpenEntry { page: u64, index: usize },
    /// The file of a page, read again.
    OpenShown { page: u64 },
    /// Another page of what a page is of.
    Page { page: u64, offset: u64, hex: bool },
}

/// A part of what was sent to a model.
#[derive(Clone, Copy, Debug, PartialEq, Eq, Structural)]
pub enum Section {
    Configuration,
    System,
    Tools,
}

/// A field of a recorded fact.
#[derive(Clone, Copy, Debug, PartialEq, Eq, Structural)]
pub struct Source {
    pub seq: u64,
    pub field: u64,
}

/// What can be done.
#[derive(Clone, Copy, Debug, PartialEq, Eq, Structural)]
pub enum Action {
    References,
    ReferenceSources(Option<u64>),
    CaptureReference(u64),
    PreviewReference { reference: u64, offset: u64 },
    AddReference(u64),
    RemoveReference(u64),
    History(HistoryRequest),
    FilePicker(FileRequest),
    InsertFile(u64),
    Help,
    Terminals,
    TerminalStatus(u64),
    CloseTerminal(u64),
    CloseTerminals,
    Jobs(Option<u64>),
    Preview(u64),
    Plugins(PluginsCommand),
    Profiles,
    ExternalOpen(u64),
    External,
    Attention,
    /// The key of the search service.
    ExaCredential,
    /// The key of the server at an index.
    McpCredential(u64),
    Login,
    SetupModels,
    RecallPrompt(u64),
    UiSurface(u64),
    UiCard,
    UiEdit(u64),
    UiInvoke(u64),
    Commands,
    CommandResult,
    Extensions,
    Extension(u64),
    CommandHelp(u64),
    Exit,
    Retry,
    Submission,
    DiscardRejected,
    New,
    Attach(u64),
    Parent,
    Todos,
    Metrics,
    TreeMetrics(bool),
    Requests(Option<u64>),
    RequestSections(u64),
    RequestManifest(u64),
    Evidence { seq: u64, section: Section, from: u32 },
    Agents,
    Recent,
    MoreRecent,
    Queue,
    Message(u64),
    CancelMessage(u64),
    Questions,
    Approvals,
    Question(u64),
    Approval(u64),
    Decide { approval: u64, allow: bool },
    Detail,
    Window { source: Source, offset: u64 },
    Output { id: u64, offset: u64 },
}

/// What the entries of a menu say and do.
pub open spec fn items_of(v: Seq<(String, Action)>) -> Seq<(Seq<char>, Action)> {
    Seq::new(v.len(), |i: int| (v[i].0@, v[i].1))
}

/// Adds an entry to a menu.
pub fn push_item(items: &mut Vec<(String, Action)>, label: String, action: Action)
    ensures
        items_of(final(items)@) == items_of(old(items)@).push((label@, action)),
{
    let ghost before = items_of(items@);
    let ghost s = label@;
    items.push((label, action));
    proof {
        assert(items_of(items@) =~= before.push((s, action)));
    }
}

/// A menu without entries.
pub fn no_items() -> (items: Vec<(String, Action)>)
    ensures
        items_of(items@) == Seq::<(Seq<char>, Action)>::empty(),
{
    let items: Vec<(String, Action)> = Vec::new();
    proof {
        assert(items_of(items@) =~= Seq::<(Seq<char>, Action)>::empty());
    }
    items
}

/// A menu.
#[derive(Debug)]
pub struct Menu {
    pub title: String,
    pub items: Vec<(String, Action)>,
    pub selected: usize,
}

/// What a [`Menu`] says.
#[verifier::ext_equal]
pub struct MenuView {
    pub title: Seq<char>,
    pub items: Seq<(Seq<char>, Action)>,
    pub selected: usize,
}

impl View for Menu {
    type V = MenuView;

    open spec fn view(&self) -> MenuView {
        MenuView { title: self.title@, items: items_of(self.items@), selected: self.selected }
    }
}

/// A menu with its first entry selected.
pub open spec fn menu_of(title: Seq<char>, items: Seq<(Seq<char>, Action)>) -> MenuView {
    MenuView { title, items, selected: 0 }
}

pub fn make_menu(title: String, items: Vec<(String, Action)>) -> (r: Menu)
    ensures
        r@ == menu_of(title@, items_of(items@)),
{
    Menu { title, items, selected: 0 }
}

/// What a menu that may be missing says.
pub open spec fn menu_view(m: Option<Menu>) -> Option<MenuView> {
    match m {
        Some(m) => Some(m@),
        None => None,
    }
}

/// A text that is shown, with what can be done from it.
#[derive(Debug)]
pub struct Detail {
    pub text: String,
    pub previous: Option<Action>,
    pub next: Option<Action>,
    pub actions: Option<Menu>,
    /// What is said of it below.
    pub info: String,
}

/// What a [`Detail`] says.
#[verifier::ext_equal]
pub struct DetailView {
    pub text: Seq<char>,
    pub previous: Option<Action>,
    pub next: Option<Action>,
    pub actions: Option<MenuView>,
    pub info: Seq<char>,
}

impl View for Detail {
    type V = DetailView;

    open spec fn view(&self) -> DetailView {
        DetailView {
            text: self.text@,
            previous: self.previous,
            next: self.next,
            actions: menu_view(self.actions),
            info: self.info@,
        }
    }
}

impl Menu {
    /// The action of the selected entry.
    pub open spec fn chosen(self) -> Option<Action> {
        if self.selected < self.items@.len() {
            Some(self.items@[self.selected as int].1)
        } else {
            None
        }
    }

    pub fn action(&self) -> (r: Option<Action>)
        ensures
            r == self.chosen(),
    {
        if self.selected < self.items.len() {
            Some(self.items[self.selected].1)
        } else {
            None
        }
    }

    /// Moves the selection one entry up or down.
    pub fn step(&mut self, up: bool)
        ensures
            final(self)@ == (MenuView {
                selected: (if up {
                    scene::step_up(old(self).selected as int)
                } else {
                    scene::step_down(old(self).selected as int, old(self).items@.len() as int)
                }) as usize,
                ..old(self)@
            }),
    {
        let ghost v = self@;
        self.selected = if up {
            scene::up(self.selected)
        } else {
            scene::down(self.selected, self.items.len())
        };
        proof {
            assert(self@ =~= MenuView { selected: self.selected, ..v });
        }
    }

    /// Selects the entry at an index, if there is one.
    pub fn select(&mut self, index: usize)
        ensures
            final(self)@ == (MenuView {
                selected: if index < old(self).items@.len() {
                    index
                } else {
                    old(self).selected
                },
                ..old(self)@
            }),
    {
        let ghost v = self@;
        if index < self.items.len() {
            self.selected = index;
        }
        proof {
            assert(self@ =~= MenuView { selected: self.selected, ..v });
        }
    }
}

} // verus!
