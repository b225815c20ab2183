//! Who gets what was typed, pasted or clicked, and which results and frames still count.
use vstd::prelude::*;
use vstd::string::*;
use crate::editor;
use crate::editor::{Editor, EditorView};
use crate::keys::{KeyCode, KeyEvent, MouseEvent, MouseKind};
use crate::lanes::{Lanes, Tag};
use crate::scene;
use crate::scene::{Area, Shown};
use crate::text;
use crate::text::{characters, is_blank, split};

verus! {

/// What is in front.
#[derive(Clone, Copy, Debug, PartialEq, Eq, Structural)]
pub struct Front {
    pub profiles: bool,
    pub external: bool,
    pub setup: bool,
    /// Whether any dialog is in front of the conversation.
    pub dialog: bool,
    pub menu: bool,
    pub answer: bool,
    /// Whether a text of an extension is edited.
    pub ui_edit: bool,
    pub detail: bool,
}

/// Who gets a pasted text.
#[derive(Clone, Copy, Debug, PartialEq, Eq, Structural)]
pub enum PasteRoute {
    Profiles,
    External,
    Setup,
    Slash,
    Extension,
    Answer,
    Draft,
    Nobody,
}

impl Front {
    /// Whether another screen has the whole terminal.
    pub open spec fn covered(self) -> bool {
        self.profiles || self.external || self.setup
    }

    pub fn is_covered(&self) -> (r: bool)
        ensures
            r == self.covered(),
    {
        self.profiles || self.external || self.setup
    }

    /// Whether the conversation itself is in front.
    pub open spec fn open(self) -> bool {
        !self.covered() && !self.menu && !self.answer && !self.ui_edit && !self.detail
    }

    /// Whether the commands of the draft are offered: otherwise their list is hidden.
    pub fn offers_commands(&self) -> (r: bool)
        ensures
            r == self.open(),
    {
        !self.is_covered() && !self.menu && !self.answer && !self.ui_edit && !self.detail
    }

    /// Who gets a pasted text. `taken` says whether the list of commands took it; it is only asked
    /// where no other screen has the terminal.
    pub open spec fn paste(self, taken: bool) -> PasteRoute {
        if self.profiles {
            PasteRoute::Profiles
        } else if self.external {
            PasteRoute::External
        } else if self.setup {
            PasteRoute::Setup
        } else if taken {
            PasteRoute::Slash
        } else if self.menu {
            PasteRoute::Nobody
        } else if self.ui_edit {
            PasteRoute::Extension
        } else if self.detail {
            PasteRoute::Nobody
        } else if self.answer {
            PasteRoute::Answer
        } else {
            PasteRoute::Draft
        }
    }

    pub fn paste_route(&self, taken: bool) -> (r: PasteRoute)
        ensures
            r == self.paste(taken),
    {
        if self.profiles {
            PasteRoute::Profiles
        } else if self.external {
            PasteRoute::External
        } else if self.setup {
            PasteRoute::Setup
        } else if taken {
            PasteRoute::Slash
        } else if self.menu {
            PasteRoute::Nobody
        } else if self.ui_edit {
            PasteRoute::Extension
        } else if self.detail {
            PasteRoute::Nobody
        } else if self.answer {
            PasteRoute::Answer
        } else {
            PasteRoute::Draft
        }
    }
}

/// What a key does.
#[derive(Clone, Copy, Debug, PartialEq, Eq, Structural)]
pub enum KeyRoute {
    /// Nothing: the key was let go, or nobody wants it.
    Nobody,
    Profiles,
    External,
    Setup,
    /// The list of commands took it.
    Slash,
    /// The front dialog is left.
    Escape,
    /// What runs is cancelled.
    Cancel,
    Copy,
    ActionMenu,
    PromptMenu,
    /// The sign of a file is written, and a file is picked.
    FilePicker,
    /// The client ends.
    Quit,
    MenuUp,
    MenuDown,
    MenuEnter,
    /// What an extension shows took it.
    Extension,
    ScrollUp,
    ScrollDown,
    FollowLive,
    DetailEnd,
    DetailActions,
    DetailNext,
    DetailPrevious,
    FocusNext,
    Answer,
    Submit,
    Steer,
    EditAnswer,
    EditDraft,
}

/// What decides on a key besides what is in front.
#[derive(Clone, Copy, Debug, PartialEq, Eq, Structural)]
pub struct Asked {
    /// Whether the list of commands took the key. It is asked where the conversation is in front.
    pub slash: bool,
    /// Whether what an extension shows took the key. It is asked where no menu is in front and no
    /// key of the client comes first.
    pub extension: bool,
    /// Whether the cursor stands where a word begins.
    pub word_start: bool,
    /// Whether there is neither a draft, with its references, nor an unresolved input.
    pub idle: bool,
}

/// Whether the cursor of an editor stands where a word begins.
pub open spec fn opens_word(v: EditorView) -> bool {
    let before = editor::head(v.text, v.cursor);
    before.len() == 0 || text::blank(before.last())
}

pub fn at_word_start(e: &Editor) -> (r: bool)
    requires
        e.wf(),
    ensures
        r == opens_word(e@),
{
    proof {
        e.law_bounds();
    }
    let (before, _) = split(e.text(), e.cursor());
    let chars = characters(before);
    if chars.len() == 0 {
        true
    } else {
        is_blank(chars[chars.len() - 1])
    }
}

/// A key of the client that works over every dialog.
pub open spec fn over_dialogs(f: Front, k: KeyEvent, a: Asked) -> Option<KeyRoute> {
    if k.control && k.code == KeyCode::Char('c') {
        Some(
            if f.dialog {
                KeyRoute::Escape
            } else {
                KeyRoute::Cancel
            },
        )
    } else if k.control && k.code == KeyCode::Char('y') {
        Some(KeyRoute::Copy)
    } else if k.code == KeyCode::Escape {
        Some(KeyRoute::Escape)
    } else if k.control && k.code == KeyCode::Char('p') {
        Some(KeyRoute::ActionMenu)
    } else if k.control && k.code == KeyCode::Char('r') && !f.dialog {
        Some(KeyRoute::PromptMenu)
    } else if k.code == KeyCode::Char('@') && k.alt && !k.control && !f.dialog && a.word_start {
        Some(KeyRoute::FilePicker)
    } else if k.control && k.code == KeyCode::Char('d') && a.idle && !f.answer && !f.ui_edit {
        Some(KeyRoute::Quit)
    } else {
        None
    }
}

fn over(f: Front, k: KeyEvent, a: Asked) -> (r: Option<KeyRoute>)
    ensures
        r == over_dialogs(f, k, a),
{
    if k.control && k.code == KeyCode::Char('c') {
        Some(
            if f.dialog {
                KeyRoute::Escape
            } else {
                KeyRoute::Cancel
            },
        )
    } else if k.control && k.code == KeyCode::Char('y') {
        Some(KeyRoute::Copy)
    } else if k.code == KeyCode::Escape {
        Some(KeyRoute::Escape)
    } else if k.control && k.code == KeyCode::Char('p') {
        Some(KeyRoute::ActionMenu)
    } else if k.control && k.code == KeyCode::Char('r') && !f.dialog {
        Some(KeyRoute::PromptMenu)
    } else if k.code == KeyCode::Char('@') && k.alt && !k.control && !f.dialog && a.word_start {
        Some(KeyRoute::FilePicker)
    } else if k.control && k.code == KeyCode::Char('d') && a.idle && !f.answer && !f.ui_edit {
        Some(KeyRoute::Quit)
    } else {
        None
    }
}

/// A key in a menu.
pub open spec fn in_menu(k: KeyEvent) -> KeyRoute {
    match k.code {
        KeyCode::Up => KeyRoute::MenuUp,
        KeyCode::Down => KeyRoute::MenuDown,
        KeyCode::Enter => KeyRoute::MenuEnter,
        _ => KeyRoute::Nobody,
    }
}

/// A key over a text that is read.
pub open spec fn in_detail(k: KeyEvent) -> KeyRoute {
    match k.code {
        KeyCode::Up => KeyRoute::ScrollUp,
        KeyCode::Down => KeyRoute::ScrollDown,
        KeyCode::Enter => KeyRoute::DetailActions,
        KeyCode::Right => KeyRoute::DetailNext,
        KeyCode::Left => KeyRoute::DetailPrevious,
        _ => KeyRoute::Nobody,
    }
}

/// A key over the conversation, or over the question that is answered.
pub open spec fn in_composer(f: Front, k: KeyEvent) -> KeyRoute {
    if k.code == KeyCode::Tab && !f.answer {
        KeyRoute::FocusNext
    } else if k.code == KeyCode::Enter && !k.shift {
        if f.answer {
            KeyRoute::Answer
        } else {
            KeyRoute::Submit
        }
    } else if k.control && k.code == KeyCode::Char('s') && !f.answer {
        KeyRoute::Submit
    } else if k.control && k.code == KeyCode::Char('o') && !f.answer {
        KeyRoute::Steer
    } else if f.answer {
        KeyRoute::EditAnswer
    } else {
        KeyRoute::EditDraft
    }
}

/// A key that no menu is in front of.
pub open spec fn below_menu(f: Front, k: KeyEvent, a: Asked) -> KeyRoute {
    if a.extension {
        KeyRoute::Extension
    } else if k.code == KeyCode::PageUp {
        KeyRoute::ScrollUp
    } else if k.code == KeyCode::PageDown {
        KeyRoute::ScrollDown
    } else if k.code == KeyCode::End && !k.control && !f.dialog {
        KeyRoute::FollowLive
    } else if f.detail {
        if k.code == KeyCode::End {
            KeyRoute::DetailEnd
        } else {
            in_detail(k)
        }
    } else {
        in_composer(f, k)
    }
}

fn below(f: Front, k: KeyEvent, a: Asked) -> (r: KeyRoute)
    ensures
        r == below_menu(f, k, a),
{
    if a.extension {
        KeyRoute::Extension
    } else if k.code == KeyCode::PageUp {
        KeyRoute::ScrollUp
    } else if k.code == KeyCode::PageDown {
        KeyRoute::ScrollDown
    } else if k.code == KeyCode::End && !k.control && !f.dialog {
        KeyRoute::FollowLive
    } else if f.detail {
        match k.code {
            KeyCode::End => KeyRoute::DetailEnd,
            KeyCode::Up => KeyRoute::ScrollUp,
            KeyCode::Down => KeyRoute::ScrollDown,
            KeyCode::Enter => KeyRoute::DetailActions,
            KeyCode::Right => KeyRoute::DetailNext,
            KeyCode::Left => KeyRoute::DetailPrevious,
            _ => KeyRoute::Nobody,
        }
    } else if k.code == KeyCode::Tab && !f.answer {
        KeyRoute::FocusNext
    } else if k.code == KeyCode::Enter && !k.shift {
        if f.answer {
            KeyRoute::Answer
        } else {
            KeyRoute::Submit
        }
    } else if k.control && k.code == KeyCode::Char('s') && !f.answer {
        KeyRoute::Submit
    } else if k.control && k.code == KeyCode::Char('o') && !f.answer {
        KeyRoute::Steer
    } else if f.answer {
        KeyRoute::EditAnswer
    } else {
        KeyRoute::EditDraft
    }
}

/// What a key does.
pub open spec fn key_routed(f: Front, k: KeyEvent, a: Asked) -> KeyRoute {
    if k.release {
        KeyRoute::Nobody
    } else if f.profiles {
        KeyRoute::Profiles
    } else if f.external {
        KeyRoute::External
    } else if f.setup {
        KeyRoute::Setup
    } else if f.open() && a.slash {
        KeyRoute::Slash
    } else {
        match over_dialogs(f, k, a) {
            Some(r) => r,
            None => if f.menu {
                in_menu(k)
            } else {
                below_menu(f, k, a)
            },
        }
    }
}

/// What a key does.
pub fn key_route(f: Front, k: KeyEvent, a: Asked) -> (r: KeyRoute)
    ensures
        r == key_routed(f, k, a),
{
    if k.release {
        return KeyRoute::Nobody;
    }
    if f.profiles {
        return KeyRoute::Profiles;
    }
    if f.external {
        return KeyRoute::External;
    }
    if f.setup {
        return KeyRoute::Setup;
    }
    if f.offers_commands() && a.slash {
        return KeyRoute::Slash;
    }
    match over(f, k, a) {
        Some(r) => r,
        None => if f.menu {
            match k.code {
                KeyCode::Up => KeyRoute::MenuUp,
                KeyCode::Down => KeyRoute::MenuDown,
                KeyCode::Enter => KeyRoute::MenuEnter,
                _ => KeyRoute::Nobody,
            }
        } else {
            below(f, k, a)
        },
    }
}

/// What can be clicked below the conversation.
#[derive(Clone, Copy, Debug, PartialEq, Eq, Structural)]
pub enum Footer {
    Parent,
    Model,
}

/// What a mouse event does.
#[derive(Clone, Copy, Debug, PartialEq, Eq, Structural)]
pub enum MouseRoute {
    Nobody,
    Profiles,
    External,
    Setup,
    Slash,
    MenuUp,
    MenuDown,
    MenuSelect(usize),
    ScrollUp,
    ScrollDown,
    Footer(Footer),
    /// A block is folded, or the text at a place is selected.
    Point,
    /// The selection goes on to a place.
    Extend,
    Copy,
}

/// What the last frame showed around the conversation.
#[derive(Debug)]
pub struct Around {
    /// Where the dialog was.
    pub dialog: Option<Area>,
    /// Whether the frame belongs to the conversation that is shown.
    pub belongs: bool,
    pub footer: Vec<(Area, Footer)>,
}

impl Around {
    /// Nothing was shown around the conversation.
    pub open spec fn is_nothing(self) -> bool {
        self.dialog is None && !self.belongs && self.footer@.len() == 0
    }

    pub fn nothing() -> (r: Around)
        ensures
            r.is_nothing(),
    {
        Around { dialog: None, belongs: false, footer: Vec::new() }
    }
}

/// The first part of the footer at a place.
pub open spec fn footer_at(v: Seq<(Area, Footer)>, column: int, row: int) -> Option<Footer>
    decreases v.len(),
{
    if v.len() == 0 {
        None
    } else if v[0].0.x <= column < scene::end_of(v[0].0.x, v[0].0.width) && row == v[0].0.y {
        Some(v[0].1)
    } else {
        footer_at(v.drop_first(), column, row)
    }
}

fn find_footer(v: &Vec<(Area, Footer)>, column: u16, row: u16) -> (r: Option<Footer>)
    ensures
        r == footer_at(v@, column as int, row as int),
{
    let mut i: usize = 0;
    proof {
        assert(v@.skip(0) =~= v@);
    }
    while i < v.len()
        invariant
            i <= v@.len(),
            footer_at(v@.skip(i as int), column as int, row as int) == footer_at(
                v@,
                column as int,
                row as int,
            ),
        decreases v@.len() - i,
    {
        let area = v[i].0;
        if column >= area.x && column < area.x.saturating_add(area.width) && row == area.y {
            return Some(v[i].1);
        }
        proof {
            assert(v@.skip(i as int).drop_first() =~= v@.skip(i as int + 1));
        }
        i += 1;
    }
    None
}

/// A mouse event over a dialog.
pub open spec fn over_dialog(
    f: Front,
    m: MouseEvent,
    view: Shown,
    around: Around,
    revision: u64,
) -> MouseRoute {
    if !(around.dialog matches Some(area) && area.covers(m.column as int, m.row as int)) {
        MouseRoute::Nobody
    } else {
        match m.kind {
            MouseKind::ScrollUp => if f.menu {
                MouseRoute::MenuUp
            } else {
                MouseRoute::ScrollUp
            },
            MouseKind::ScrollDown => if f.menu {
                MouseRoute::MenuDown
            } else {
                MouseRoute::ScrollDown
            },
            MouseKind::LeftDown => if f.menu && view.choice_revision == revision {
                match view.choice(m.column as int, m.row as int) {
                    Some(index) => MouseRoute::MenuSelect(index),
                    None => MouseRoute::Nobody,
                }
            } else {
                MouseRoute::Nobody
            },
            _ => MouseRoute::Nobody,
        }
    }
}

/// What a mouse event does. `taken` says whether the list of commands took it.
pub open spec fn mouse_routed(
    f: Front,
    m: MouseEvent,
    taken: bool,
    view: Shown,
    around: Around,
    revision: u64,
) -> MouseRoute {
    if f.profiles {
        MouseRoute::Profiles
    } else if f.external {
        MouseRoute::External
    } else if f.setup {
        MouseRoute::Setup
    } else if taken {
        MouseRoute::Slash
    } else if f.dialog {
        over_dialog(f, m, view, around, revision)
    } else {
        match m.kind {
            MouseKind::ScrollUp => MouseRoute::ScrollUp,
            MouseKind::ScrollDown => MouseRoute::ScrollDown,
            MouseKind::LeftDown => match footer_at(around.footer@, m.column as int, m.row as int) {
                Some(part) if around.belongs => MouseRoute::Footer(part),
                _ => MouseRoute::Point,
            },
            MouseKind::LeftDrag => if around.belongs {
                MouseRoute::Extend
            } else {
                MouseRoute::Nobody
            },
            MouseKind::LeftUp => MouseRoute::Copy,
            MouseKind::Other => MouseRoute::Nobody,
        }
    }
}

/// What a mouse event does.
pub fn mouse_route(
    f: Front,
    m: MouseEvent,
    taken: bool,
    view: &Shown,
    around: &Around,
    revision: u64,
) -> (r: MouseRoute)
    ensures
        r == mouse_routed(f, m, taken, *view, *around, revision),
{
    if f.profiles {
        return MouseRoute::Profiles;
    }
    if f.external {
        return MouseRoute::External;
    }
    if f.setup {
        return MouseRoute::Setup;
    }
    if taken {
        return MouseRoute::Slash;
    }
    if f.dialog {
        let inside: bool = match around.dialog {
            Some(area) => area.contains(m.column, m.row),
            None => false,
        };
        if !inside {
            return MouseRoute::Nobody;
        }
        return match m.kind {
            MouseKind::ScrollUp => if f.menu {
                MouseRoute::MenuUp
            } else {
                MouseRoute::ScrollUp
            },
            MouseKind::ScrollDown => if f.menu {
                MouseRoute::MenuDown
            } else {
                MouseRoute::ScrollDown
            },
            MouseKind::LeftDown => if f.menu && view.choice_revision == revision {
                match view.choice_at(m.column, m.row) {
                    Some(index) => MouseRoute::MenuSelect(index),
                    None => MouseRoute::Nobody,
                }
            } else {
                MouseRoute::Nobody
            },
            _ => MouseRoute::Nobody,
        };
    }
    match m.kind {
        MouseKind::ScrollUp => MouseRoute::ScrollUp,
        MouseKind::ScrollDown => MouseRoute::ScrollDown,
        MouseKind::LeftDown => {
            if around.belongs {
                if let Some(part) = find_footer(&around.footer, m.column, m.row) {
                    return MouseRoute::Footer(part);
                }
            }
            MouseRoute::Point
        },
        MouseKind::LeftDrag => if around.belongs {
            MouseRoute::Extend
        } else {
            MouseRoute::Nobody
        },
        MouseKind::LeftUp => MouseRoute::Copy,
        MouseKind::Other => MouseRoute::Nobody,
    }
}

/// What a result is of.
#[derive(Clone, Copy, Debug, PartialEq, Eq, Structural)]
pub enum Told {
    HistorySearch,
    Extension,
    Menu,
    Recent,
    Message,
    Window,
    Output,
    Attached,
    /// Anything else, a failure too.
    Other,
}

/// Whether a result is shown no more once something else was opened.
pub open spec fn fleeting(t: Told) -> bool {
    !(t is Other)
}

/// Whether a result that has arrived is dropped.
pub open spec fn dropped(v: Lanes, tag: Tag, told: Told) -> bool {
    v.supersedes(tag) || (tag.view_revision != v.view_revision && fleeting(told))
}

/// Whether a result that has arrived is dropped: it belongs to another conversation, or to
/// something that is no longer shown.
pub fn is_dropped(v: &Lanes, tag: Tag, told: Told) -> (r: bool)
    ensures
        r == dropped(*v, tag, told),
{
    v.superseded(tag) || (tag.view_revision != v.view_revision && !matches!(told, Told::Other))
}

/// Another screen that has the terminal gets every key, text and click.
pub proof fn law_covered(
    f: Front,
    k: KeyEvent,
    a: Asked,
    m: MouseEvent,
    taken: bool,
    view: Shown,
    around: Around,
    revision: u64,
)
    requires
        f.covered(),
        !k.release,
    ensures
        key_routed(f, k, a) is Profiles || key_routed(f, k, a) is External || key_routed(f, k, a)
            is Setup,
        f.paste(taken) is Profiles || f.paste(taken) is External || f.paste(taken) is Setup,
        mouse_routed(f, m, taken, view, around, revision) is Profiles || mouse_routed(
            f,
            m,
            taken,
            view,
            around,
            revision,
        ) is External || mouse_routed(f, m, taken, view, around, revision) is Setup,
{
}

/// A click on a choice only counts while the frame shows the choices as they are now.
pub proof fn law_stale_click(
    f: Front,
    m: MouseEvent,
    taken: bool,
    view: Shown,
    around: Around,
    revision: u64,
)
    requires
        view.choice_revision != revision,
    ensures
        !(mouse_routed(f, m, taken, view, around, revision) is MenuSelect),
{
}

/// The draft is only submitted, and the client only left by its key, where nothing covers it.
pub proof fn law_submits_in_front(f: Front, k: KeyEvent, a: Asked)
    ensures
        key_routed(f, k, a) is Submit || key_routed(f, k, a) is Steer ==> !f.covered() && !f.menu
            && !f.detail && !f.answer,
        key_routed(f, k, a) is Quit ==> a.idle && !f.covered() && !f.answer && !f.ui_edit,
        key_routed(f, k, a) is Cancel ==> !f.dialog && !f.covered(),
{
}

/// A result that belongs to another conversation is always dropped.
pub proof fn law_other_conversation(v: Lanes, tag: Tag, told: Told)
    requires
        tag.generation != v.generation,
    ensures
        dropped(v, tag, told),
{
}

/// A key over the conversation, where no dialog is open and neither the list of commands nor an
/// extension took it: what each does, and that everything else is written into the draft.
pub proof fn law_conversation_keys(f: Front, k: KeyEvent, a: Asked)
    requires
        !k.release,
        !f.profiles && !f.external && !f.setup && !f.menu && !f.answer && !f.ui_edit && !f.detail
            && !f.dialog,
        !a.slash && !a.extension,
    ensures
        ({
            let r = key_routed(f, k, a);
            let control = |c: char| k.control && k.code == KeyCode::Char(c);
            &&& r is Submit <==> (k.code is Enter && !k.shift) || control('s')
            &&& r is Steer <==> control('o')
            &&& r is Cancel <==> control('c')
            &&& r is Copy <==> control('y')
            &&& r is ActionMenu <==> control('p')
            &&& r is PromptMenu <==> control('r')
            &&& r is Quit <==> control('d') && a.idle
            &&& r is FilePicker <==> k.code == KeyCode::Char('@') && k.alt && !k.control
                && a.word_start
            &&& r is Escape <==> k.code is Escape
            &&& r is FocusNext <==> k.code is Tab
            &&& r is ScrollUp <==> k.code is PageUp
            &&& r is ScrollDown <==> k.code is PageDown
            &&& r is FollowLive <==> k.code is End && !k.control
            &&& r is Submit || r is Steer || r is Cancel || r is Copy || r is ActionMenu
                || r is PromptMenu || r is Quit || r is FilePicker || r is Escape || r is FocusNext
                || r is ScrollUp || r is ScrollDown || r is FollowLive || r is EditDraft
        }),
{
}

/// A key over a menu moves in it or chooses from it, over a text that is read it moves there, and
/// over a question it answers: each its own way.
pub proof fn law_dialog_keys(f: Front, k: KeyEvent, a: Asked)
    requires
        !k.release,
        !f.profiles && !f.external && !f.setup,
        f.dialog,
        !k.control && !k.alt,
        !(k.code is Escape),
    ensures
        ({
            let r = key_routed(f, k, a);
            &&& f.menu ==> {
                &&& r is MenuUp <==> k.code is Up
                &&& r is MenuDown <==> k.code is Down
                &&& r is MenuEnter <==> k.code is Enter
                &&& r is MenuUp || r is MenuDown || r is MenuEnter || r is Nobody
            }
            &&& f.detail && !f.menu && !a.extension ==> {
                &&& r is ScrollUp <==> k.code is Up || k.code is PageUp
                &&& r is ScrollDown <==> k.code is Down || k.code is PageDown
                &&& r is DetailActions <==> k.code is Enter
                &&& r is DetailNext <==> k.code is Right
                &&& r is DetailPrevious <==> k.code is Left
                &&& r is DetailEnd <==> k.code is End
            }
            &&& f.answer && !f.menu && !f.detail && !a.extension ==> {
                &&& r is Answer <==> k.code is Enter && !k.shift
                &&& r is ScrollUp <==> k.code is PageUp
                &&& r is ScrollDown <==> k.code is PageDown
                &&& r is Answer || r is ScrollUp || r is ScrollDown || r is EditAnswer
            }
            &&& a.extension && !f.menu ==> r is Extension || r is Slash
        }),
{
}

/// Over a dialog Control and C leaves it and never cancels; the key for copying and the menu of
/// actions work there too, and those for prompts and files do not.
pub proof fn law_client_keys_over_dialogs(f: Front, k: KeyEvent, a: Asked)
    requires
        !k.release,
        !f.profiles && !f.external && !f.setup,
        f.dialog,
        f.menu || f.answer || f.ui_edit || f.detail,
    ensures
        k.control && k.code == KeyCode::Char('c') ==> key_routed(f, k, a) is Escape,
        k.control && k.code == KeyCode::Char('y') ==> key_routed(f, k, a) is Copy,
        k.code is Escape ==> key_routed(f, k, a) is Escape,
        k.control && k.code == KeyCode::Char('p') ==> key_routed(f, k, a) is ActionMenu,
        !(key_routed(f, k, a) is PromptMenu),
        !(key_routed(f, k, a) is FilePicker),
{
}

/// A key that was let go does nothing. Of the screens that can have the terminal the profiles come
/// first, then the external settings, then the setup, for keys, texts and clicks alike.
pub proof fn law_screens_first(
    f: Front,
    k: KeyEvent,
    a: Asked,
    m: MouseEvent,
    taken: bool,
    view: Shown,
    around: Around,
    revision: u64,
)
    ensures
        k.release ==> key_routed(f, k, a) is Nobody,
        !k.release ==> (key_routed(f, k, a) is Profiles <==> f.profiles),
        !k.release ==> (key_routed(f, k, a) is External <==> f.external && !f.profiles),
        !k.release ==> (key_routed(f, k, a) is Setup <==> f.setup && !f.external && !f.profiles),
        f.paste(taken) is Profiles <==> f.profiles,
        f.paste(taken) is External <==> f.external && !f.profiles,
        f.paste(taken) is Setup <==> f.setup && !f.external && !f.profiles,
        mouse_routed(f, m, taken, view, around, revision) is Profiles <==> f.profiles,
        mouse_routed(f, m, taken, view, around, revision) is External <==> f.external
            && !f.profiles,
        mouse_routed(f, m, taken, view, around, revision) is Setup <==> f.setup && !f.external
            && !f.profiles,
{
}

/// A pasted text goes to the list of commands where that took it, and otherwise to what is edited
/// in front: the text of an extension, the answer or the draft. A menu and a text that is read let
/// nothing through.
pub proof fn law_pasted(f: Front, taken: bool)
    requires
        !f.profiles && !f.external && !f.setup,
    ensures
        f.paste(taken) is Slash <==> taken,
        f.paste(taken) is Draft <==> !taken && !f.menu && !f.ui_edit && !f.detail && !f.answer,
        f.paste(taken) is Answer <==> !taken && !f.menu && !f.ui_edit && !f.detail && f.answer,
        f.paste(taken) is Extension <==> !taken && !f.menu && f.ui_edit,
        f.paste(taken) is Nobody <==> !taken && (f.menu || (f.detail && !f.ui_edit)),
{
}

/// The wheel and the button over the conversation: they scroll, point, extend and copy, and a part
/// of the footer is clicked only in a frame of the conversation that is shown.
pub proof fn law_mouse_over_conversation(
    f: Front,
    m: MouseEvent,
    view: Shown,
    around: Around,
    revision: u64,
)
    requires
        !f.profiles && !f.external && !f.setup && !f.dialog,
    ensures
        ({
            let r = mouse_routed(f, m, false, view, around, revision);
            &&& mouse_routed(f, m, true, view, around, revision) is Slash
            &&& r is ScrollUp <==> m.kind is ScrollUp
            &&& r is ScrollDown <==> m.kind is ScrollDown
            &&& r is Copy <==> m.kind is LeftUp
            &&& r is Extend <==> m.kind is LeftDrag && around.belongs
            &&& r is Footer ==> m.kind is LeftDown && around.belongs
            &&& m.kind is LeftDown ==> r is Footer || r is Point
            &&& r is Point ==> m.kind is LeftDown
            &&& r matches MouseRoute::Footer(part) ==> exists|i: int|
                0 <= i < around.footer@.len() && (#[trigger] around.footer@[i]).1 == part
                    && around.footer@[i].0.y == m.row && around.footer@[i].0.x <= m.column
                    < around.footer@[i].0.x + around.footer@[i].0.width
        }),
{
    let r = mouse_routed(f, m, false, view, around, revision);
    if let MouseRoute::Footer(part) = r {
        let i = lemma_footer(around.footer@, m.column as int, m.row as int);
        assert(around.footer@[i].1 == part);
    }
}

proof fn lemma_footer(v: Seq<(Area, Footer)>, column: int, row: int) -> (i: int)
    requires
        footer_at(v, column, row) is Some,
    ensures
        0 <= i < v.len(),
        footer_at(v, column, row) == Some(v[i].1),
        v[i].0.y == row,
        v[i].0.x <= column < v[i].0.x + v[i].0.width,
    decreases v.len(),
{
    if v[0].0.x <= column < scene::end_of(v[0].0.x, v[0].0.width) && row == v[0].0.y {
        0
    } else {
        let i = lemma_footer(v.drop_first(), column, row);
        i + 1
    }
}

/// The wheel and the button over a dialog move in it or choose from it, and outside of it they do
/// nothing.
pub proof fn law_mouse_over_dialog(
    f: Front,
    m: MouseEvent,
    view: Shown,
    around: Around,
    revision: u64,
    area: Area,
)
    requires
        !f.profiles && !f.external && !f.setup && f.dialog,
        around.dialog == Some(area),
    ensures
        ({
            let r = mouse_routed(f, m, false, view, around, revision);
            let inside = area.covers(m.column as int, m.row as int);
            &&& !inside ==> r is Nobody
            &&& inside ==> (r is MenuUp <==> m.kind is ScrollUp && f.menu)
            &&& inside ==> (r is MenuDown <==> m.kind is ScrollDown && f.menu)
            &&& inside ==> (r is ScrollUp <==> m.kind is ScrollUp && !f.menu)
            &&& inside ==> (r is ScrollDown <==> m.kind is ScrollDown && !f.menu)
            &&& r matches MouseRoute::MenuSelect(index) ==> m.kind is LeftDown && f.menu
                && view.choice(m.column as int, m.row as int) == Some(index)
        }),
        forall|none: Around|
            none.dialog is None ==> #[trigger] mouse_routed(
                f,
                m,
                false,
                view,
                none,
                revision,
            ) is Nobody,
{
}

/// A result counts where it belongs to the conversation that is shown and either to what is still
/// shown or to something that is told in any case.
pub proof fn law_results_that_count(v: Lanes, tag: Tag, told: Told)
    ensures
        tag.generation == v.generation && tag.history_revision == v.history.revision
            && tag.view_revision == v.view_revision ==> !dropped(v, tag, told),
        tag.generation == v.generation && told is Other && !(tag.kind is History) && !(
        tag.kind is Detail) ==> !dropped(v, tag, told),
        tag.view_revision != v.view_revision && !(told is Other) ==> dropped(v, tag, told),
{
}

/// A word begins at the start of a text and behind white space, and nowhere else.
pub proof fn law_word_start(v: EditorView, left: Seq<char>, right: Seq<char>)
    requires
        v.text == left + right,
        v.cursor == text::size(left),
    ensures
        opens_word(v) <==> left.len() == 0 || text::blank(left[left.len() - 1]),
{
    assert(v.text.take(left.len() as int) =~= left);
    text::lemma_fit_exact(v.text, left.len() as int);
}

/// A click on an entry of the menu that is in front selects that entry, as long as the menu is the
/// one that was shown.
pub proof fn law_menu_click(
    f: Front,
    m: MouseEvent,
    view: Shown,
    around: Around,
    revision: u64,
    area: Area,
    index: usize,
)
    requires
        !f.profiles && !f.external && !f.setup && f.dialog && f.menu,
        around.dialog == Some(area),
        area.covers(m.column as int, m.row as int),
        m.kind is LeftDown,
        view.choice_revision == revision,
        view.choice(m.column as int, m.row as int) == Some(index),
    ensures
        mouse_routed(f, m, false, view, around, revision) == MouseRoute::MenuSelect(index),
{
}

} // verus!
