//! What an action that was chosen leads to.
use vstd::prelude::*;
use vstd::string::*;
use crate::actions;
use crate::actions::{
    make_menu, menu_view, no_items, push_item, Action, Detail, DetailView, Menu, MenuView, Source,
};
use crate::display;
use crate::display::terminal_text;
use crate::lanes::WorkKind;
use crate::number;
use crate::number::decimal;
use crate::references;
use crate::references::{Part, PartView};
use crate::request_details;
use crate::request_details::{metrics_text, section_menu, Metrics};
use crate::submission::{Request, RequestView};
use crate::text::{cat2, cat3, cat4, cat5};

verus! {

/// The requests that may be under way when something is chosen.
pub const BUSY_TASKS: usize = 8;

/// The conversations whose drafts are kept.
pub const SAVED_SESSIONS: usize = 64;

/// The parts of a block that can be read in full.
pub const MAXIMUM_PIECES: usize = 64;

/// How far a task is.
#[derive(Clone, Copy, Debug, PartialEq, Eq, Structural)]
pub enum TodoStatus {
    Pending,
    InProgress,
    Completed,
}

/// A task of a conversation.
#[derive(Debug)]
pub struct Todo {
    pub status: TodoStatus,
    pub content: String,
}

/// A question that waits for its answer.
#[derive(Debug)]
pub struct LiveQuestion {
    pub handle: u64,
    pub id: String,
    /// Its first prompt.
    pub prompt: String,
}

/// Something that waits for its approval.
#[derive(Debug)]
pub struct LiveApproval {
    pub handle: u64,
    pub action: String,
    pub reason: String,
    /// The request as it is shown.
    pub body: String,
}

/// A reference of an input.
#[derive(Debug)]
pub struct Quoted {
    pub id: u64,
    pub source: String,
    pub through: u64,
    pub preview: String,
}

/// A piece of a block.
#[derive(Clone, Copy, Debug, PartialEq, Eq, Structural)]
pub struct Piece {
    pub source: Source,
    /// Whether a part of it is left out.
    pub omitted: bool,
}

/// The call of a tool that a block shows.
#[derive(Clone, Copy, Debug, PartialEq, Eq, Structural)]
pub struct Tool {
    /// The conversation elsewhere that it opened.
    pub external: Option<u64>,
    pub arguments: Option<Source>,
    pub result: Option<Source>,
    pub rejection: Option<Source>,
}

/// A block of a conversation.
#[derive(Debug)]
pub struct Block {
    /// Whether it tells of a request, and of which.
    pub metadata: bool,
    pub request: Option<u64>,
    pub text: String,
    pub pieces: Vec<Piece>,
    pub tool: Option<Tool>,
    pub completed: bool,
    /// What was kept of the output of a command.
    pub stdout: Option<u64>,
    pub stderr: Option<u64>,
}

/// What the client knows when something is chosen.
#[derive(Debug)]
pub struct Situation {
    /// The requests that are under way.
    pub tasks: usize,
    /// The input whose outcome is not known or that was rejected, and whether it was rejected.
    pub request: Option<Request>,
    pub rejected: bool,
    pub quoted: Vec<Quoted>,
    /// The conversations whose drafts are kept.
    pub saved: Vec<u64>,
    pub parent: Option<u64>,
    pub todos: Option<Vec<Todo>>,
    pub metrics: Option<Metrics>,
    /// Whether prices are configured.
    pub priced: bool,
    pub questions: Vec<LiveQuestion>,
    pub approvals: Vec<LiveApproval>,
    /// The name and description of the command that help was asked of.
    pub command: (String, String),
    /// What a pending input says of itself.
    pub message: String,
    /// The block that has the focus.
    pub block: Option<Block>,
}

/// What the application opens.
#[derive(Clone, Copy, Debug, PartialEq, Eq, Structural)]
pub enum Opened {
    Profiles,
    ExternalOpen(u64),
    External,
    Attention,
    Login,
    Models,
    ExaCredential,
    McpCredential(u64),
}

/// What is done.
#[derive(Debug)]
pub enum Effect {
    /// Nothing more.
    Nothing,
    /// The client ends.
    Exit,
    /// The part of the client that the action belongs to does it.
    Own(Action),
    /// The application opens something.
    Open(Opened),
    /// The output of a command is watched, below this text.
    Watch { request: u64, shown: String },
    /// The input is sent again.
    Retry,
    /// The rejected input is discarded.
    Discard,
    /// The question is answered from its first part on.
    Answer(u64),
    /// The action is asked of the conversation, in a lane.
    Ask { kind: WorkKind, action: Action },
    /// A menu is shown.
    Choose(Menu),
    /// A menu is shown, and the action is asked of the conversation, in a lane.
    ChooseAndAsk { menu: Menu, kind: WorkKind, action: Action },
    /// A text is shown, with a menu where there is one.
    Read { detail: Detail, offered: Option<Menu> },
    Notice(String),
    Info(String),
}

/// What an [`Effect`] says.
pub enum EffectView {
    Nothing,
    Exit,
    Own(Action),
    Open(Opened),
    Watch { request: u64, shown: Seq<char> },
    Retry,
    Discard,
    Answer(u64),
    Ask { kind: WorkKind, action: Action },
    Choose(MenuView),
    ChooseAndAsk { menu: MenuView, kind: WorkKind, action: Action },
    Read { detail: DetailView, offered: Option<MenuView> },
    Notice(Seq<char>),
    Info(Seq<char>),
}

impl View for Effect {
    type V = EffectView;

    open spec fn view(&self) -> EffectView {
        match self {
            Effect::Nothing => EffectView::Nothing,
            Effect::Exit => EffectView::Exit,
            Effect::Own(a) => EffectView::Own(*a),
            Effect::Open(o) => EffectView::Open(*o),
            Effect::Watch { request, shown } => EffectView::Watch {
                request: *request,
                shown: shown@,
            },
            Effect::Retry => EffectView::Retry,
            Effect::Discard => EffectView::Discard,
            Effect::Answer(q) => EffectView::Answer(*q),
            Effect::Ask { kind, action } => EffectView::Ask { kind: *kind, action: *action },
            Effect::Choose(m) => EffectView::Choose(m@),
            Effect::ChooseAndAsk { menu, kind, action } => EffectView::ChooseAndAsk {
                menu: menu@,
                kind: *kind,
                action: *action,
            },
            Effect::Read { detail, offered } => EffectView::Read {
                detail: detail@,
                offered: menu_view(*offered),
            },
            Effect::Notice(s) => EffectView::Notice(s@),
            Effect::Info(s) => EffectView::Info(s@),
        }
    }
}

/// What a chosen action leads to. `cleared` says whether what an extension shows is closed and the
/// text that is read is given up, and `escaped` whether the front dialog is left.
#[derive(Debug)]
pub struct Outcome {
    pub cleared: bool,
    pub escaped: bool,
    pub effect: Effect,
}

/// What an [`Outcome`] says.
pub struct OutcomeView {
    pub cleared: bool,
    pub escaped: bool,
    pub effect: EffectView,
}

impl View for Outcome {
    type V = OutcomeView;

    open spec fn view(&self) -> OutcomeView {
        OutcomeView { cleared: self.cleared, escaped: self.escaped, effect: self.effect@ }
    }
}

/// The mark of a task.
pub open spec fn mark_of(s: TodoStatus) -> Seq<char> {
    match s {
        TodoStatus::Pending => "[ ]"@,
        TodoStatus::InProgress => "[>]"@,
        TodoStatus::Completed => "[x]"@,
    }
}

fn mark(s: TodoStatus) -> (r: &'static str)
    ensures
        r@ == mark_of(s),
{
    match s {
        TodoStatus::Pending => "[ ]",
        TodoStatus::InProgress => "[>]",
        TodoStatus::Completed => "[x]",
    }
}

/// The first `n` tasks, a line each.
pub open spec fn todo_lines(v: Seq<Todo>, n: int) -> Seq<char>
    decreases n,
{
    if n <= 0 {
        seq![]
    } else {
        let line = mark_of(v[n - 1].status) + " "@ + v[n - 1].content@;
        if n == 1 {
            line
        } else {
            todo_lines(v, n - 1) + "\n"@ + line
        }
    }
}

/// What is shown of the tasks.
pub open spec fn todo_text(v: Option<Vec<Todo>>) -> Seq<char> {
    match v {
        None => "Task list is not available yet"@,
        Some(v) => if v@.len() == 0 {
            "No tasks"@
        } else {
            todo_lines(v@, v@.len() as int)
        },
    }
}

/// What is shown of the tasks of a conversation.
pub fn show_todos(v: &Option<Vec<Todo>>) -> (r: String)
    ensures
        r@ == todo_text(*v),
{
    match v {
        None => "Task list is not available yet".to_owned(),
        Some(v) => {
            if v.len() == 0 {
                return "No tasks".to_owned();
            }
            let mut out = cat3(mark(v[0].status), " ", v[0].content.as_str());
            let mut i: usize = 1;
            while i < v.len()
                invariant
                    1 <= i <= v@.len(),
                    out@ == todo_lines(v@, i as int),
                decreases v@.len() - i,
            {
                let line = cat3(mark(v[i].status), " ", v[i].content.as_str());
                out = cat3(out.as_str(), "\n", line.as_str());
                i += 1;
            }
            out
        },
    }
}

/// The reference of a number, if it is there.
pub open spec fn quote_of(v: Seq<Quoted>, id: u64, n: int) -> Option<Seq<char>>
    decreases n,
{
    if n <= 0 {
        None
    } else {
        match quote_of(v, id, n - 1) {
            Some(s) => Some(s),
            None => if v[n - 1].id == id {
                Some(
                    "Reference "@ + v[n - 1].source@ + " · through record "@ + number::digits(
                        v[n - 1].through as nat,
                    ) + "\n"@ + v[n - 1].preview@,
                )
            } else {
                None
            },
        }
    }
}

fn quote(v: &Vec<Quoted>, id: u64) -> (r: Option<String>)
    ensures
        match r {
            Some(s) => quote_of(v@, id, v@.len() as int) == Some(s@),
            None => quote_of(v@, id, v@.len() as int) is None,
        },
{
    let mut out: Option<String> = None;
    let mut i: usize = 0;
    while i < v.len()
        invariant
            i <= v@.len(),
            match out {
                Some(s) => quote_of(v@, id, i as int) == Some(s@),
                None => quote_of(v@, id, i as int) is None,
            },
        decreases v@.len() - i,
    {
        if out.is_none() && v[i].id == id {
            let head = cat5(
                "Reference ",
                v[i].source.as_str(),
                " · through record ",
                decimal(v[i].through).as_str(),
                "\n",
            );
            out = Some(cat2(head.as_str(), v[i].preview.as_str()));
        }
        i += 1;
    }
    out
}

/// What a part of an input says.
pub open spec fn part_text(p: PartView, v: Seq<Quoted>) -> Option<Seq<char>> {
    match p {
        PartView::Text(s) => Some(s),
        PartView::Reference(id) => quote_of(v, id, v.len() as int),
    }
}

/// What the first `n` parts of an input say, if any says anything.
pub open spec fn parts_text(p: Seq<PartView>, v: Seq<Quoted>, n: int) -> Option<Seq<char>>
    decreases n,
{
    if n <= 0 {
        None
    } else {
        match part_text(p[n - 1], v) {
            None => parts_text(p, v, n - 1),
            Some(s) => match parts_text(p, v, n - 1) {
                None => Some(s),
                Some(before) => Some(before + "\n"@ + s),
            },
        }
    }
}

fn body(p: &Vec<Part>, v: &Vec<Quoted>) -> (r: String)
    ensures
        r@ == (match parts_text(references::parts_of(p@), v@, p@.len() as int) {
            Some(s) => s,
            None => seq![],
        }),
{
    let ghost parts = references::parts_of(p@);
    let mut out: Option<String> = None;
    let mut i: usize = 0;
    while i < p.len()
        invariant
            i <= p@.len(),
            parts == references::parts_of(p@),
            match out {
                Some(s) => parts_text(parts, v@, i as int) == Some(s@),
                None => parts_text(parts, v@, i as int) is None,
            },
        decreases p@.len() - i,
    {
        proof {
            assert(parts[i as int] == p@[i as int]@);
        }
        let piece: Option<String> = match &p[i] {
            Part::Text(s) => Some(s.clone()),
            Part::Reference(id) => quote(v, *id),
        };
        if let Some(piece) = piece {
            out = match out {
                Some(before) => Some(cat3(before.as_str(), "\n", piece.as_str())),
                None => Some(piece),
            };
        }
        i += 1;
    }
    match out {
        Some(s) => s,
        None => String::new(),
    }
}

/// What can be done with the input that is pending.
pub open spec fn submission_items(rejected: bool) -> Seq<(Seq<char>, Action)> {
    let retry = ("Retry the exact same input and identity"@, Action::Retry);
    if rejected {
        seq![retry, ("Discard this rejected input; keep editor draft"@, Action::DiscardRejected)]
    } else {
        seq![retry]
    }
}

/// The input that is pending, as it is shown.
pub open spec fn submission_view(r: RequestView, rejected: bool, v: Seq<Quoted>) -> EffectView {
    EffectView::Read {
        detail: DetailView {
            text: display::shown_text(
                match parts_text(r.parts, v, r.parts.len() as int) {
                    Some(s) => s,
                    None => seq![],
                },
            ),
            previous: None,
            next: None,
            actions: Some(
                actions::menu_of(
                    r.message + " · Enter actions · Ctrl+Y copy"@,
                    submission_items(rejected),
                ),
            ),
            info: seq![],
        },
        offered: None,
    }
}

fn show_submission(r: &Request, rejected: bool, v: &Vec<Quoted>) -> (e: Effect)
    ensures
        e@ == submission_view(r@, rejected, v@),
{
    let text = terminal_text(body(&r.parts, v).as_str());
    let mut items = no_items();
    push_item(&mut items, "Retry the exact same input and identity".to_owned(), Action::Retry);
    if rejected {
        push_item(
            &mut items,
            "Discard this rejected input; keep editor draft".to_owned(),
            Action::DiscardRejected,
        );
    }
    proof {
        assert(actions::items_of(items@) =~= submission_items(rejected));
    }
    let menu = make_menu(cat2(r.message.as_str(), " · Enter actions · Ctrl+Y copy"), items);
    let info = String::new();
    proof {
        assert(info@ =~= Seq::<char>::empty());
    }
    Effect::Read {
        detail: Detail { text, previous: None, next: None, actions: Some(menu), info },
        offered: None,
    }
}

/// A text that is shown by itself.
pub open spec fn plain(text: Seq<char>, info: Seq<char>) -> EffectView {
    EffectView::Read {
        detail: DetailView { text, previous: None, next: None, actions: None, info },
        offered: None,
    }
}

fn plain_text(text: String, info: &str) -> (e: Effect)
    ensures
        e@ == plain(text@, info@),
{
    Effect::Read {
        detail: Detail {
            text,
            previous: None,
            next: None,
            actions: None,
            info: info.to_owned(),
        },
        offered: None,
    }
}

/// The first `n` questions.
pub open spec fn question_items(v: Seq<LiveQuestion>, n: int) -> Seq<(Seq<char>, Action)>
    decreases n,
{
    if n <= 0 {
        seq![]
    } else {
        question_items(v, n - 1).push(
            (v[n - 1].id@ + " · "@ + v[n - 1].prompt@, Action::Question(v[n - 1].handle)),
        )
    }
}

/// The menu of the questions that wait.
pub fn question_menu(v: &Vec<LiveQuestion>) -> (r: Menu)
    ensures
        r@ == actions::menu_of("Live questions"@, question_items(v@, v@.len() as int)),
{
    let mut items = no_items();
    let mut i: usize = 0;
    while i < v.len()
        invariant
            i <= v@.len(),
            actions::items_of(items@) == question_items(v@, i as int),
        decreases v@.len() - i,
    {
        push_item(
            &mut items,
            cat3(v[i].id.as_str(), " · ", v[i].prompt.as_str()),
            Action::Question(v[i].handle),
        );
        i += 1;
    }
    make_menu("Live questions".to_owned(), items)
}

/// What an approval is listed as.
pub open spec fn approval_label(a: LiveApproval) -> Seq<char> {
    a.action@ + " · "@ + a.reason@
}

/// The first `n` approvals.
pub open spec fn approval_items(v: Seq<LiveApproval>, n: int) -> Seq<(Seq<char>, Action)>
    decreases n,
{
    if n <= 0 {
        seq![]
    } else {
        approval_items(v, n - 1).push(
            (approval_label(v[n - 1]), Action::Approval(v[n - 1].handle)),
        )
    }
}

/// The menu of what waits for its approval.
pub fn approval_menu(v: &Vec<LiveApproval>) -> (r: Menu)
    ensures
        r@ == actions::menu_of("Live approvals"@, approval_items(v@, v@.len() as int)),
{
    let mut items = no_items();
    let mut i: usize = 0;
    while i < v.len()
        invariant
            i <= v@.len(),
            actions::items_of(items@) == approval_items(v@, i as int),
        decreases v@.len() - i,
    {
        push_item(
            &mut items,
            cat3(v[i].action.as_str(), " · ", v[i].reason.as_str()),
            Action::Approval(v[i].handle),
        );
        i += 1;
    }
    make_menu("Live approvals".to_owned(), items)
}

/// Whether a question waits.
pub open spec fn asks(v: Seq<LiveQuestion>, handle: u64) -> bool {
    exists|i: int| 0 <= i < v.len() && #[trigger] v[i].handle == handle
}

/// Says whether a question waits.
pub fn is_asked(v: &Vec<LiveQuestion>, handle: u64) -> (r: bool)
    ensures
        r == asks(v@, handle),
{
    let mut i: usize = 0;
    while i < v.len()
        invariant
            i <= v@.len(),
            forall|j: int| 0 <= j < i ==> v@[j].handle != handle,
        decreases v@.len() - i,
    {
        if v[i].handle == handle {
            proof {
                assert(v@[i as int].handle == handle);
            }
            return true;
        }
        i += 1;
    }
    false
}

/// Where an approval stands among the first `n`.
pub open spec fn approval_at(v: Seq<LiveApproval>, handle: u64, n: int) -> Option<int>
    decreases n,
{
    if n <= 0 {
        None
    } else {
        match approval_at(v, handle, n - 1) {
            Some(i) => Some(i),
            None => if v[n - 1].handle == handle {
                Some(n - 1)
            } else {
                None
            },
        }
    }
}

fn find_approval(v: &Vec<LiveApproval>, handle: u64) -> (r: Option<usize>)
    ensures
        match r {
            Some(i) => i < v@.len() && approval_at(v@, handle, v@.len() as int) == Some(i as int),
            None => approval_at(v@, handle, v@.len() as int) is None,
        },
{
    let mut out: Option<usize> = None;
    let mut i: usize = 0;
    while i < v.len()
        invariant
            i <= v@.len(),
            match out {
                Some(k) => k < v@.len() && approval_at(v@, handle, i as int) == Some(k as int),
                None => approval_at(v@, handle, i as int) is None,
            },
        decreases v@.len() - i,
    {
        if out.is_none() && v[i].handle == handle {
            out = Some(i);
        }
        i += 1;
    }
    out
}

/// What is shown of a request that waits for its approval.
pub open spec fn approval_view(a: LiveApproval) -> EffectView {
    EffectView::Read {
        detail: DetailView {
            text: a.body@,
            previous: None,
            next: None,
            actions: Some(
                actions::menu_of(
                    approval_label(a),
                    seq![
                        ("Deny"@, Action::Decide { approval: a.handle, allow: false }),
                        ("Allow once"@, Action::Decide { approval: a.handle, allow: true }),
                    ],
                ),
            ),
            info: "Review the prepared request; Enter opens Deny / Allow once"@,
        },
        offered: None,
    }
}

fn show_approval(a: &LiveApproval) -> (e: Effect)
    ensures
        e@ == approval_view(*a),
{
    let mut items = no_items();
    push_item(
        &mut items,
        "Deny".to_owned(),
        Action::Decide { approval: a.handle, allow: false },
    );
    push_item(
        &mut items,
        "Allow once".to_owned(),
        Action::Decide { approval: a.handle, allow: true },
    );
    proof {
        assert(actions::items_of(items@) =~= seq![
            ("Deny"@, Action::Decide { approval: a.handle, allow: false }),
            ("Allow once"@, Action::Decide { approval: a.handle, allow: true }),
        ]);
    }
    let menu = make_menu(cat3(a.action.as_str(), " · ", a.reason.as_str()), items);
    Effect::Read {
        detail: Detail {
            text: a.body.clone(),
            previous: None,
            next: None,
            actions: Some(menu),
            info: "Review the prepared request; Enter opens Deny / Allow once".to_owned(),
        },
        offered: None,
    }
}

/// The pieces that can be read in full, of the first `n`.
pub open spec fn piece_items(v: Seq<Piece>, n: int) -> Seq<(Seq<char>, Action)>
    decreases n,
{
    if n <= 0 {
        seq![]
    } else {
        let before = piece_items(v, n - 1);
        if v[n - 1].omitted && before.len() < MAXIMUM_PIECES {
            before.push(
                (
                    "Fact "@ + number::digits(v[n - 1].source.seq as nat) + " · field "@
                        + number::digits(v[n - 1].source.field as nat) + " · first window"@,
                    Action::Window { source: v[n - 1].source, offset: 0 },
                ),
            )
        } else {
            before
        }
    }
}

/// The entry of a source, where there is one.
pub open spec fn source_item(
    items: Seq<(Seq<char>, Action)>,
    label: Seq<char>,
    s: Option<Source>,
) -> Seq<(Seq<char>, Action)> {
    match s {
        Some(s) => items.push(
            (
                label + " · Fact "@ + number::digits(s.seq as nat),
                Action::Window { source: s, offset: 0 },
            ),
        ),
        None => items,
    }
}

fn push_source(items: &mut Vec<(String, Action)>, label: &str, s: Option<Source>)
    ensures
        actions::items_of(final(items)@) == source_item(
            actions::items_of(old(items)@),
            label@,
            s,
        ),
{
    if let Some(s) = s {
        push_item(
            items,
            cat3(label, " · Fact ", decimal(s.seq).as_str()),
            Action::Window { source: s, offset: 0 },
        );
    }
}

/// The entries of a tool call.
pub open spec fn tool_items(
    items: Seq<(Seq<char>, Action)>,
    t: Tool,
    completed: bool,
) -> Seq<(Seq<char>, Action)> {
    let opened = match t.external {
        Some(id) => items.push(("Open external conversation"@, Action::ExternalOpen(id))),
        None => items,
    };
    let live = if completed {
        opened
    } else {
        opened.push(("Live command output"@, Action::Jobs(None)))
    };
    source_item(
        source_item(source_item(live, "Arguments"@, t.arguments), "Result value"@, t.result),
        "Rejection"@,
        t.rejection,
    )
}

fn push_tool(items: &mut Vec<(String, Action)>, t: &Tool, completed: bool)
    ensures
        actions::items_of(final(items)@) == tool_items(
            actions::items_of(old(items)@),
            *t,
            completed,
        ),
{
    if let Some(id) = t.external {
        push_item(items, "Open external conversation".to_owned(), Action::ExternalOpen(id));
    }
    if !completed {
        push_item(items, "Live command output".to_owned(), Action::Jobs(None));
    }
    push_source(items, "Arguments", t.arguments);
    push_source(items, "Result value", t.result);
    push_source(items, "Rejection", t.rejection);
}

/// The entry of a stream, where something was kept of it.
pub open spec fn output_item(
    items: Seq<(Seq<char>, Action)>,
    label: Seq<char>,
    o: Option<u64>,
) -> Seq<(Seq<char>, Action)> {
    match o {
        Some(id) => items.push((label, Action::Output { id, offset: 0 })),
        None => items,
    }
}

/// What can be read from a block.
pub open spec fn block_items(b: Block) -> Seq<(Seq<char>, Action)> {
    let pieces = piece_items(b.pieces@, b.pieces@.len() as int);
    let tooled = match b.tool {
        Some(t) => tool_items(pieces, t, b.completed),
        None => pieces,
    };
    output_item(output_item(tooled, "Full stdout"@, b.stdout), "Full stderr"@, b.stderr)
}

/// A block, as it is shown in full.
pub open spec fn block_view(b: Block) -> EffectView {
    EffectView::Read {
        detail: DetailView {
            text: b.text@,
            previous: None,
            next: None,
            actions: None,
            info: seq![],
        },
        offered: if block_items(b).len() > 0 {
            Some(actions::menu_of("Source reads"@, block_items(b)))
        } else {
            None
        },
    }
}

fn show_block(b: &Block) -> (e: Effect)
    ensures
        e@ == block_view(*b),
{
    let mut items = no_items();
    let mut i: usize = 0;
    while i < b.pieces.len()
        invariant
            i <= b.pieces@.len(),
            actions::items_of(items@) == piece_items(b.pieces@, i as int),
        decreases b.pieces@.len() - i,
    {
        proof {
            assert(actions::items_of(items@).len() == items@.len());
        }
        if b.pieces[i].omitted && items.len() < MAXIMUM_PIECES {
            let source = b.pieces[i].source;
            push_item(
                &mut items,
                cat5(
                    "Fact ",
                    decimal(source.seq).as_str(),
                    " · field ",
                    decimal(source.field).as_str(),
                    " · first window",
                ),
                Action::Window { source, offset: 0 },
            );
        }
        i += 1;
    }
    if let Some(t) = &b.tool {
        push_tool(&mut items, t, b.completed);
    }
    if let Some(id) = b.stdout {
        push_item(&mut items, "Full stdout".to_owned(), Action::Output { id, offset: 0 });
    }
    if let Some(id) = b.stderr {
        push_item(&mut items, "Full stderr".to_owned(), Action::Output { id, offset: 0 });
    }
    proof {
        assert(actions::items_of(items@) == block_items(*b));
        assert(actions::items_of(items@).len() == items@.len());
    }
    let menu: Option<Menu> = if items.len() > 0 {
        Some(make_menu("Source reads".to_owned(), items))
    } else {
        None
    };
    let info = String::new();
    proof {
        assert(info@ =~= Seq::<char>::empty());
    }
    Effect::Read {
        detail: Detail { text: b.text.clone(), previous: None, next: None, actions: None, info },
        offered: menu,
    }
}

/// What is done about changing the conversation.
pub open spec fn attaching(id: u64, s: Situation) -> EffectView {
    if s.request is Some {
        EffectView::Notice("Resolve the outstanding submission before changing sessions"@)
    } else if s.saved@.len() >= SAVED_SESSIONS && !s.saved@.contains(id) {
        EffectView::Notice(
            "64 session drafts retained; open an existing saved session first"@,
        )
    } else {
        EffectView::Ask { kind: WorkKind::Read, action: Action::Attach(id) }
    }
}

fn contains(v: &Vec<u64>, id: u64) -> (r: bool)
    ensures
        r == v@.contains(id),
{
    let mut i: usize = 0;
    while i < v.len()
        invariant
            i <= v@.len(),
            forall|j: int| 0 <= j < i ==> v@[j] != id,
        decreases v@.len() - i,
    {
        if v[i] == id {
            return true;
        }
        i += 1;
    }
    false
}

fn attach(id: u64, s: &Situation) -> (e: Effect)
    ensures
        e@ == attaching(id, *s),
{
    if s.request.is_some() {
        Effect::Notice("Resolve the outstanding submission before changing sessions".to_owned())
    } else if s.saved.len() >= SAVED_SESSIONS && !contains(&s.saved, id) {
        Effect::Notice(
            "64 session drafts retained; open an existing saved session first".to_owned(),
        )
    } else {
        Effect::Ask { kind: WorkKind::Read, action: Action::Attach(id) }
    }
}

/// What is done about a new conversation.
pub open spec fn starting(s: Situation) -> EffectView {
    if s.request is Some {
        EffectView::Notice("Resolve the outstanding submission before changing sessions"@)
    } else if s.saved@.len() >= SAVED_SESSIONS {
        EffectView::Notice(
            "64 saved Sessions retained; open an existing Session or restart this application"@,
        )
    } else {
        EffectView::Ask { kind: WorkKind::Read, action: Action::New }
    }
}

fn start(s: &Situation) -> (e: Effect)
    ensures
        e@ == starting(*s),
{
    if s.request.is_some() {
        Effect::Notice("Resolve the outstanding submission before changing sessions".to_owned())
    } else if s.saved.len() >= SAVED_SESSIONS {
        Effect::Notice(
            "64 saved Sessions retained; open an existing Session or restart this application".to_owned(),
        )
    } else {
        Effect::Ask { kind: WorkKind::Read, action: Action::New }
    }
}

/// The menu of a pending input.
pub open spec fn message_menu(id: u64, label: Seq<char>) -> MenuView {
    actions::menu_of(label, seq![("Cancel this pending input"@, Action::CancelMessage(id))])
}

fn make_message_menu(id: u64, label: &str) -> (m: Menu)
    ensures
        m@ == message_menu(id, label@),
{
    let mut items = no_items();
    push_item(&mut items, "Cancel this pending input".to_owned(), Action::CancelMessage(id));
    proof {
        assert(actions::items_of(items@) =~= seq![
            ("Cancel this pending input"@, Action::CancelMessage(id)),
        ]);
    }
    make_menu(label.to_owned(), items)
}

/// Whether a part of the client of its own does what is asked.
pub open spec fn owned(a: Action) -> bool {
    a is References || a is ReferenceSources || a is CaptureReference || a is PreviewReference || a
        is AddReference || a is RemoveReference || a is History || a is FilePicker || a
        is InsertFile || a is Help || a is Terminals || a is TerminalStatus || a
        is CloseTerminal || a is CloseTerminals || a is Jobs || a is Plugins || a
        is RecallPrompt || a is UiSurface || a is UiCard || a is Commands || a
        is CommandResult || a is Extensions || a is Extension
}

fn is_owned(a: Action) -> (r: bool)
    ensures
        r == owned(a),
{
    matches!(
        a,
        Action::References
            | Action::ReferenceSources(_)
            | Action::CaptureReference(_)
            | Action::PreviewReference { .. }
            | Action::AddReference(_)
            | Action::RemoveReference(_)
            | Action::History(_)
            | Action::FilePicker(_)
            | Action::InsertFile(_)
            | Action::Help
            | Action::Terminals
            | Action::TerminalStatus(_)
            | Action::CloseTerminal(_)
            | Action::CloseTerminals
            | Action::Jobs(_)
            | Action::Plugins(_)
            | Action::RecallPrompt(_)
            | Action::UiSurface(_)
            | Action::UiCard
            | Action::Commands
            | Action::CommandResult
            | Action::Extensions
            | Action::Extension(_)
    )
}

/// What the application opens for an action.
pub open spec fn opening(a: Action) -> Option<Opened> {
    match a {
        Action::Profiles => Some(Opened::Profiles),
        Action::ExternalOpen(id) => Some(Opened::ExternalOpen(id)),
        Action::External => Some(Opened::External),
        Action::Attention => Some(Opened::Attention),
        Action::ExaCredential => Some(Opened::ExaCredential),
        Action::McpCredential(i) => Some(Opened::McpCredential(i)),
        Action::Login => Some(Opened::Login),
        Action::SetupModels => Some(Opened::Models),
        _ => None,
    }
}

fn opens(a: Action) -> (r: Option<Opened>)
    ensures
        r == opening(a),
{
    match a {
        Action::Profiles => Some(Opened::Profiles),
        Action::ExternalOpen(id) => Some(Opened::ExternalOpen(id)),
        Action::External => Some(Opened::External),
        Action::Attention => Some(Opened::Attention),
        Action::ExaCredential => Some(Opened::ExaCredential),
        Action::McpCredential(i) => Some(Opened::McpCredential(i)),
        Action::Login => Some(Opened::Login),
        Action::SetupModels => Some(Opened::Models),
        _ => None,
    }
}

/// The lane in which an action is asked of the conversation as it is.
pub open spec fn lane(a: Action) -> Option<WorkKind> {
    match a {
        Action::TreeMetrics(_) | Action::Requests(_) | Action::RequestManifest(_)
        | Action::Evidence { .. } | Action::Window { .. } | Action::Output { .. } => Some(
            WorkKind::Detail,
        ),
        Action::Agents | Action::Recent | Action::MoreRecent | Action::Queue
        | Action::CancelMessage(_) => Some(WorkKind::Read),
        _ => None,
    }
}

fn lane_of(a: Action) -> (r: Option<WorkKind>)
    ensures
        r == lane(a),
{
    match a {
        Action::TreeMetrics(_) | Action::Requests(_) | Action::RequestManifest(_)
        | Action::Evidence { .. } | Action::Window { .. } | Action::Output { .. } => Some(
            WorkKind::Detail,
        ),
        Action::Agents | Action::Recent | Action::MoreRecent | Action::Queue
        | Action::CancelMessage(_) => Some(WorkKind::Read),
        _ => None,
    }
}

/// What is done about the block that has the focus.
pub open spec fn detailing(s: Situation) -> EffectView {
    match s.block {
        None => EffectView::Nothing,
        Some(b) => if b.metadata {
            match b.request {
                Some(seq) => EffectView::Choose(
                    actions::menu_of(
                        "Request "@ + number::digits(seq as nat),
                        request_details::section_items(seq),
                    ),
                ),
                None => EffectView::Ask { kind: WorkKind::Detail, action: Action::Requests(None) },
            }
        } else {
            block_view(b)
        },
    }
}

fn detail(s: &Situation) -> (e: Effect)
    ensures
        e@ == detailing(*s),
{
    match &s.block {
        None => Effect::Nothing,
        Some(b) => if b.metadata {
            match b.request {
                Some(seq) => Effect::Choose(section_menu(seq)),
                None => Effect::Ask { kind: WorkKind::Detail, action: Action::Requests(None) },
            }
        } else {
            show_block(b)
        },
    }
}

/// What is done about an action that only the client itself can answer.
pub open spec fn answered(a: Action, s: Situation) -> EffectView {
    match a {
        Action::Preview(request) => EffectView::Watch {
            request,
            shown: "Reading live command output…"@,
        },
        Action::CommandHelp(_) => plain(
            "/"@ + s.command.0@ + "\n"@ + s.command.1@,
            "Type the command in the composer and press Enter"@,
        ),
        Action::Exit => EffectView::Exit,
        Action::Retry => EffectView::Retry,
        Action::Submission => match s.request {
            Some(r) => submission_view(r@, s.rejected, s.quoted@),
            None => EffectView::Info("No unresolved submission"@),
        },
        Action::New => starting(s),
        Action::Attach(id) => attaching(id, s),
        Action::Parent => match s.parent {
            Some(id) => attaching(id, s),
            None => EffectView::Info("This is the root session"@),
        },
        Action::Todos => plain(todo_text(s.todos), seq![]),
        Action::Metrics => plain(
            match s.metrics {
                Some(m) => request_details::metrics_shown(m, s.priced),
                None => "Usage is not available yet"@,
            },
            seq![],
        ),
        Action::RequestSections(seq) => EffectView::Choose(
            actions::menu_of(
                "Request "@ + number::digits(seq as nat),
                request_details::section_items(seq),
            ),
        ),
        Action::Message(id) => EffectView::ChooseAndAsk {
            menu: message_menu(id, s.message@),
            kind: WorkKind::Detail,
            action: a,
        },
        Action::Questions => EffectView::Choose(
            actions::menu_of(
                "Live questions"@,
                question_items(s.questions@, s.questions@.len() as int),
            ),
        ),
        Action::Approvals => EffectView::Choose(
            actions::menu_of(
                "Live approvals"@,
                approval_items(s.approvals@, s.approvals@.len() as int),
            ),
        ),
        Action::Question(q) => if asks(s.questions@, q) {
            EffectView::Answer(q)
        } else {
            EffectView::Notice("Question is no longer live"@)
        },
        Action::Approval(q) => match approval_at(s.approvals@, q, s.approvals@.len() as int) {
            Some(i) => approval_view(s.approvals@[i]),
            None => EffectView::Notice("Approval is no longer live"@),
        },
        Action::Detail => detailing(s),
        _ => EffectView::Nothing,
    }
}

fn answer_plain(a: Action, s: &Situation) -> (e: Effect)
    requires
        !(a is Submission || a is New || a is Attach || a is Parent || a is Question || a
            is Approval || a is Detail),
    ensures
        e@ == answered(a, *s),
{
    match a {
        Action::Preview(request) => Effect::Watch {
            request,
            shown: "Reading live command output…".to_owned(),
        },
        Action::CommandHelp(_) => plain_text(
            cat4("/", s.command.0.as_str(), "\n", s.command.1.as_str()),
            "Type the command in the composer and press Enter",
        ),
        Action::Exit => Effect::Exit,
        Action::Retry => Effect::Retry,
        Action::Todos => {
            proof {
                reveal_strlit("");
                assert(""@ =~= Seq::<char>::empty());
            }
            plain_text(show_todos(&s.todos), "")
        },
        Action::Metrics => {
            proof {
                reveal_strlit("");
                assert(""@ =~= Seq::<char>::empty());
            }
            let text: String = match &s.metrics {
                Some(m) => metrics_text(m, s.priced),
                None => "Usage is not available yet".to_owned(),
            };
            plain_text(text, "")
        },
        Action::RequestSections(seq) => Effect::Choose(section_menu(seq)),
        Action::Message(id) => Effect::ChooseAndAsk {
            menu: make_message_menu(id, s.message.as_str()),
            kind: WorkKind::Detail,
            action: a,
        },
        Action::Questions => Effect::Choose(question_menu(&s.questions)),
        Action::Approvals => Effect::Choose(approval_menu(&s.approvals)),
        _ => Effect::Nothing,
    }
}

fn answer_checked(a: Action, s: &Situation) -> (e: Effect)
    ensures
        e@ == answered(a, *s),
{
    match a {
        Action::Submission => match &s.request {
            Some(r) => show_submission(r, s.rejected, &s.quoted),
            None => Effect::Info("No unresolved submission".to_owned()),
        },
        Action::New => start(s),
        Action::Attach(id) => attach(id, s),
        Action::Parent => match s.parent {
            Some(id) => attach(id, s),
            None => Effect::Info("This is the root session".to_owned()),
        },
        Action::Question(q) => if is_asked(&s.questions, q) {
            Effect::Answer(q)
        } else {
            Effect::Notice("Question is no longer live".to_owned())
        },
        Action::Approval(q) => match find_approval(&s.approvals, q) {
            Some(i) => show_approval(&s.approvals[i]),
            None => Effect::Notice("Approval is no longer live".to_owned()),
        },
        Action::Detail => detail(s),
        _ => answer_plain(a, s),
    }
}

/// What an action leads to.
pub open spec fn dispatched(a: Action, s: Situation) -> OutcomeView {
    if s.tasks >= BUSY_TASKS && !(a is Exit || a is Retry) {
        OutcomeView {
            cleared: false,
            escaped: false,
            effect: EffectView::Notice("Client requests are busy; try again shortly"@),
        }
    } else if a is UiEdit || a is UiInvoke {
        OutcomeView { cleared: false, escaped: false, effect: EffectView::Own(a) }
    } else {
        match a {
            Action::DiscardRejected => OutcomeView {
                cleared: true,
                escaped: s.rejected,
                effect: if s.rejected {
                    EffectView::Discard
                } else {
                    EffectView::Nothing
                },
            },
            Action::Decide { approval, allow } => OutcomeView {
                cleared: true,
                escaped: true,
                effect: if approval_at(s.approvals@, approval, s.approvals@.len() as int) is Some {
                    EffectView::Ask { kind: WorkKind::Read, action: a }
                } else {
                    EffectView::Notice("Approval changed; reopen the current request"@)
                },
            },
            _ => OutcomeView {
                cleared: true,
                escaped: false,
                effect: if owned(a) {
                    EffectView::Own(a)
                } else {
                    match opening(a) {
                        Some(o) => EffectView::Open(o),
                        None => match lane(a) {
                            Some(kind) => EffectView::Ask { kind, action: a },
                            None => answered(a, s),
                        },
                    }
                },
            },
        }
    }
}

/// What an action that was chosen leads to.
pub fn action(a: Action, s: &Situation) -> (r: Outcome)
    ensures
        r@ == dispatched(a, *s),
{
    if s.tasks >= BUSY_TASKS && !matches!(a, Action::Exit | Action::Retry) {
        return Outcome {
            cleared: false,
            escaped: false,
            effect: Effect::Notice("Client requests are busy; try again shortly".to_owned()),
        };
    }
    if matches!(a, Action::UiEdit(_) | Action::UiInvoke(_)) {
        return Outcome { cleared: false, escaped: false, effect: Effect::Own(a) };
    }
    if let Action::DiscardRejected = a {
        let effect = if s.rejected {
            Effect::Discard
        } else {
            Effect::Nothing
        };
        return Outcome { cleared: true, escaped: s.rejected, effect };
    }
    if let Action::Decide { approval, allow: _ } = a {
        let effect = if find_approval(&s.approvals, approval).is_some() {
            Effect::Ask { kind: WorkKind::Read, action: a }
        } else {
            Effect::Notice("Approval changed; reopen the current request".to_owned())
        };
        return Outcome { cleared: true, escaped: true, effect };
    }
    let effect = if is_owned(a) {
        Effect::Own(a)
    } else {
        match opens(a) {
            Some(o) => Effect::Open(o),
            None => match lane_of(a) {
                Some(kind) => Effect::Ask { kind, action: a },
                None => answer_checked(a, s),
            },
        }
    };
    Outcome { cleared: true, escaped: false, effect }
}

/// While an input is unresolved nothing leads to another conversation.
pub proof fn law_unresolved_keeps_session(a: Action, s: Situation)
    requires
        s.request is Some,
    ensures
        dispatched(a, s).effect matches EffectView::Ask { action, .. } ==> !(action is New || action
            is Attach),
{
}

/// A decision is only sent for a request that still waits for it.
pub proof fn law_decides_live(a: Action, s: Situation)
    ensures
        dispatched(a, s).effect matches EffectView::Ask { action, .. } ==> (action matches
            Action::Decide { approval, allow } ==> exists|i: int|
            0 <= i < s.approvals@.len() && #[trigger] s.approvals@[i].handle == approval),
{
    if let Action::Decide { approval, allow } = a {
        lemma_approval_at(s.approvals@, approval, s.approvals@.len() as int);
    }
}

proof fn lemma_approval_at(v: Seq<LiveApproval>, handle: u64, n: int)
    requires
        n <= v.len(),
    ensures
        approval_at(v, handle, n) matches Some(i) ==> 0 <= i < n && v[i].handle == handle,
    decreases n,
{
    if n > 0 {
        lemma_approval_at(v, handle, n - 1);
    }
}

/// With the requests at their limit, only leaving and sending again go through.
pub proof fn law_busy(a: Action, s: Situation)
    requires
        s.tasks >= BUSY_TASKS,
        !(a is Exit || a is Retry),
    ensures
        dispatched(a, s).effect is Notice,
        !dispatched(a, s).cleared,
{
}

/// A request that waits for its approval is shown with two choices: the one that is selected first
/// says "Deny" and refuses that very request, the other says "Allow once" and permits it.
pub proof fn law_approval_choices(s: Situation, i: int)
    requires
        s.tasks < 8,
        0 <= i < s.approvals@.len(),
        forall|j: int| 0 <= j < i ==> #[trigger] s.approvals@[j].handle != s.approvals@[i].handle,
    ensures
        ({
            let handle = s.approvals@[i].handle;
            let e = dispatched(Action::Approval(handle), s).effect;
            &&& e matches EffectView::Read { detail, offered }
            &&& detail.text == s.approvals@[i].body@
            &&& detail.actions matches Some(menu)
            &&& menu.selected == 0
            &&& menu.items.len() == 2
            &&& menu.items[0].0 == "Deny"@
            &&& menu.items[0].1 == (Action::Decide { approval: handle, allow: false })
            &&& menu.items[1].0 == "Allow once"@
            &&& menu.items[1].1 == (Action::Decide { approval: handle, allow: true })
        }),
{
    lemma_approval_is(s.approvals@, i, s.approvals@.len() as int);
}

proof fn lemma_approval_is(v: Seq<LiveApproval>, i: int, n: int)
    requires
        0 <= i < v.len(),
        n <= v.len(),
        forall|j: int| 0 <= j < i ==> #[trigger] v[j].handle != v[i].handle,
    ensures
        i < n ==> approval_at(v, v[i].handle, n) == Some(i),
        n <= i ==> approval_at(v, v[i].handle, n) is None,
    decreases n,
{
    if n > 0 {
        lemma_approval_is(v, i, n - 1);
    }
}

/// A decision is sent as it was made, for a request that still waits for it; for any other it is
/// not sent, and that is told. Either way the dialog is left.
pub proof fn law_decision_is_sent(s: Situation, approval: u64, allow: bool)
    requires
        s.tasks < 8,
    ensures
        ({
            let r = dispatched(Action::Decide { approval, allow }, s);
            let live = exists|i: int|
                0 <= i < s.approvals@.len() && #[trigger] s.approvals@[i].handle == approval;
            &&& r.escaped
            &&& live ==> r.effect == (EffectView::Ask {
                kind: WorkKind::Read,
                action: Action::Decide { approval, allow },
            })
            &&& !live ==> r.effect is Notice
        }),
{
    lemma_approval_found(s.approvals@, approval, s.approvals@.len() as int);
}

proof fn lemma_approval_found(v: Seq<LiveApproval>, handle: u64, n: int)
    requires
        n <= v.len(),
    ensures
        approval_at(v, handle, n) is Some <==> exists|i: int|
            0 <= i < n && #[trigger] v[i].handle == handle,
    decreases n,
{
    if n > 0 {
        lemma_approval_found(v, handle, n - 1);
        if exists|i: int| 0 <= i < n && #[trigger] v[i].handle == handle {
            let i = choose|i: int| 0 <= i < n && #[trigger] v[i].handle == handle;
            if i < n - 1 {
                assert(v[i].handle == handle);
            }
        }
        if approval_at(v, handle, n - 1) is Some {
            let i = choose|i: int| 0 <= i < n - 1 && #[trigger] v[i].handle == handle;
            assert(v[i].handle == handle);
        } else if v[n - 1].handle == handle {
            assert(v[n - 1].handle == handle);
        }
    }
}

/// What is asked of the conversation is what was chosen, except that the parent is attached by its
/// number and that the details of a request without a number lead to the list of requests.
pub proof fn law_asks_what_was_chosen(a: Action, s: Situation)
    ensures
        dispatched(a, s).effect matches EffectView::Ask { action, kind } ==> {
            &&& action == a || (a is Parent && s.parent is Some && action == Action::Attach(
                s.parent->0,
            )) || (a is Detail && action == Action::Requests(None))
            &&& kind is Detail || kind is Read
            &&& kind is Detail <==> action is TreeMetrics || action is Requests || action
                is RequestManifest || action is Evidence || action is Window || action is Output
        },
{
}

/// With eight requests under way nothing but leaving and sending again goes through.
pub proof fn law_busy_at_eight(a: Action, s: Situation)
    requires
        s.tasks >= 8,
    ensures
        !(a is Exit) && !(a is Retry) ==> dispatched(a, s).effect is Notice,
        a is Exit ==> dispatched(a, s).effect is Exit,
        a is Retry ==> dispatched(a, s).effect is Retry,
{
}

/// The client is left, an input sent again and a rejected one discarded only where exactly that
/// was chosen.
pub proof fn law_only_when_chosen(a: Action, s: Situation)
    requires
        s.tasks < 8,
    ensures
        dispatched(a, s).effect is Exit <==> a is Exit,
        dispatched(a, s).effect is Retry <==> a is Retry,
        dispatched(a, s).effect is Discard <==> a is DiscardRejected && s.rejected,
        dispatched(a, s).escaped <==> (a is Decide || (a is DiscardRejected && s.rejected)),
        dispatched(a, s).cleared <==> !(a is UiEdit || a is UiInvoke),
        dispatched(a, s).effect matches EffectView::Answer(q) ==> a == Action::Question(q),
        dispatched(a, s).effect matches EffectView::Own(o) ==> o == a,
{
}

/// A conversation is attached unless an input is unresolved or 64 drafts are kept and its own is
/// not among them; a new one is begun unless an input is unresolved or 64 are kept.
pub proof fn law_changing_conversations(id: u64, s: Situation)
    requires
        s.tasks < 8,
    ensures
        ({
            let attach = EffectView::Ask { kind: WorkKind::Read, action: Action::Attach(id) };
            let begin = EffectView::Ask { kind: WorkKind::Read, action: Action::New };
            let may = s.request is None && (s.saved@.len() < 64 || s.saved@.contains(id));
            &&& dispatched(Action::Attach(id), s).effect == attach <==> may
            &&& dispatched(Action::Attach(id), s).effect is Notice <==> !may
            &&& dispatched(Action::New, s).effect == begin <==> s.request is None && s.saved@.len()
                < 64
            &&& s.parent == Some(id) ==> (dispatched(Action::Parent, s).effect == attach <==> may)
            &&& s.parent is None ==> dispatched(Action::Parent, s).effect is Info
        }),
{
}

/// What the application opens: for each of these choices its own screen.
pub proof fn law_openings(s: Situation, n: u64)
    requires
        s.tasks < 8,
    ensures
        dispatched(Action::Profiles, s).effect == EffectView::Open(Opened::Profiles),
        dispatched(Action::External, s).effect == EffectView::Open(Opened::External),
        dispatched(Action::ExternalOpen(n), s).effect == EffectView::Open(Opened::ExternalOpen(n)),
        dispatched(Action::Attention, s).effect == EffectView::Open(Opened::Attention),
        dispatched(Action::Login, s).effect == EffectView::Open(Opened::Login),
        dispatched(Action::SetupModels, s).effect == EffectView::Open(Opened::Models),
        dispatched(Action::ExaCredential, s).effect == EffectView::Open(Opened::ExaCredential),
        dispatched(Action::McpCredential(n), s).effect == EffectView::Open(Opened::McpCredential(n)),
        dispatched(Action::Preview(n), s).effect matches EffectView::Watch { request, .. } && request
            == n,
{
}

/// A question is answered while it is live, and only then.
pub proof fn law_live_questions(s: Situation, q: u64)
    requires
        s.tasks < 8,
    ensures
        dispatched(Action::Question(q), s).effect == EffectView::Answer(q) <==> exists|i: int|
            0 <= i < s.questions@.len() && #[trigger] s.questions@[i].handle == q,
        dispatched(Action::Question(q), s).effect is Answer || dispatched(
            Action::Question(q),
            s,
        ).effect is Notice,
{
}

/// The menus of the live questions and approvals list each of them once, in order, and each entry
/// leads to its own.
pub proof fn law_live_menus(s: Situation, i: int)
    requires
        s.tasks < 8,
    ensures
        dispatched(Action::Questions, s).effect matches EffectView::Choose(menu)
            && menu.items.len() == s.questions@.len() && (0 <= i < s.questions@.len() ==> menu.items[i]
            == (
            s.questions@[i].id@ + " · "@ + s.questions@[i].prompt@,
            Action::Question(s.questions@[i].handle),
        )),
        dispatched(Action::Approvals, s).effect matches EffectView::Choose(menu)
            && menu.items.len() == s.approvals@.len() && (0 <= i < s.approvals@.len() ==> menu.items[i]
            == (
            s.approvals@[i].action@ + " · "@ + s.approvals@[i].reason@,
            Action::Approval(s.approvals@[i].handle),
        )),
{
    lemma_question_items(s.questions@, s.questions@.len() as int, i);
    lemma_approval_items(s.approvals@, s.approvals@.len() as int, i);
}

proof fn lemma_question_items(v: Seq<LiveQuestion>, n: int, i: int)
    requires
        0 <= n <= v.len(),
    ensures
        question_items(v, n).len() == n,
        0 <= i < n ==> question_items(v, n)[i] == (
            v[i].id@ + " · "@ + v[i].prompt@,
            Action::Question(v[i].handle),
        ),
    decreases n,
{
    if n > 0 {
        lemma_question_items(v, n - 1, i);
    }
}

proof fn lemma_approval_items(v: Seq<LiveApproval>, n: int, i: int)
    requires
        0 <= n <= v.len(),
    ensures
        approval_items(v, n).len() == n,
        0 <= i < n ==> approval_items(v, n)[i] == (
            v[i].action@ + " · "@ + v[i].reason@,
            Action::Approval(v[i].handle),
        ),
    decreases n,
{
    if n > 0 {
        lemma_approval_items(v, n - 1, i);
    }
}

/// A task is shown behind the mark of how far it is, a line each, in order.
pub proof fn law_todo_lines(v: Seq<Todo>, t: Todo)
    ensures
        ({
            let mark = match t.status {
                TodoStatus::Pending => "[ ]"@,
                TodoStatus::InProgress => "[>]"@,
                TodoStatus::Completed => "[x]"@,
            };
            let line = mark + " "@ + t.content@;
            &&& v.len() == 0 ==> todo_lines(v.push(t), 1) == line
            &&& v.len() > 0 ==> todo_lines(v.push(t), v.len() as int + 1) == todo_lines(
                v,
                v.len() as int,
            ) + "\n"@ + line
        }),
        todo_text(None) == "Task list is not available yet"@,
{
    lemma_todo_lines(v, v.push(t), v.len() as int);
}

proof fn lemma_todo_lines(v: Seq<Todo>, w: Seq<Todo>, n: int)
    requires
        0 <= n <= v.len() <= w.len(),
        forall|i: int| 0 <= i < v.len() ==> v[i] == w[i],
    ensures
        todo_lines(v, n) == todo_lines(w, n),
    decreases n,
{
    if n > 0 {
        lemma_todo_lines(v, w, n - 1);
    }
}

/// An unresolved input is shown with the choice to send the exact same again and, only where it
/// was rejected, with the one to discard it.
pub proof fn law_unresolved_choices(s: Situation)
    requires
        s.tasks < 8,
        s.request is Some,
    ensures
        dispatched(Action::Submission, s).effect matches EffectView::Read { detail, offered }
            && detail.actions matches Some(menu) && menu.items.len() == (if s.rejected {
            2int
        } else {
            1int
        }) && menu.items[0] == ("Retry the exact same input and identity"@, Action::Retry) && (
        s.rejected ==> menu.items[1] == (
            "Discard this rejected input; keep editor draft"@,
            Action::DiscardRejected,
        )),
{
}

/// What can be read of a block: what was kept of each stream of a command leads to that stream,
/// from its start.
pub proof fn law_block_outputs(b: Block)
    ensures
        ({
            let items = block_items(b);
            &&& b.stderr matches Some(id) ==> items.len() > 0 && items.last() == (
                "Full stderr"@,
                Action::Output { id, offset: 0 },
            )
            &&& b.stderr is None ==> (b.stdout matches Some(id) ==> items.len() > 0 && items.last()
                == ("Full stdout"@, Action::Output { id, offset: 0 }))
            &&& b.stderr is Some && b.stdout is Some ==> items.len() > 1 && items[items.len() - 2]
                == ("Full stdout"@, Action::Output { id: b.stdout->0, offset: 0 })
        }),
{
}

/// The call of a tool leads to the conversation that it opened, to its output while it runs, and
/// to its arguments, its result and its rejection, each under its own name and from its start.
pub proof fn law_tool_items(t: Tool, s: Source)
    ensures
        ({
            let none = Seq::<(Seq<char>, Action)>::empty();
            let bare = Tool { external: None, arguments: None, result: None, rejection: None };
            let read = |label: Seq<char>|
                (
                    label + " · Fact "@ + number::digits(s.seq as nat),
                    Action::Window { source: s, offset: 0 },
                );
            &&& tool_items(none, bare, true) == none
            &&& tool_items(none, bare, false) == none.push(
                ("Live command output"@, Action::Jobs(None)),
            )
            &&& tool_items(none, Tool { arguments: Some(s), ..bare }, true) == none.push(
                read("Arguments"@),
            )
            &&& tool_items(none, Tool { result: Some(s), ..bare }, true) == none.push(
                read("Result value"@),
            )
            &&& tool_items(none, Tool { rejection: Some(s), ..bare }, true) == none.push(
                read("Rejection"@),
            )
            &&& tool_items(none, Tool { external: Some(s.seq), ..bare }, true) == none.push(
                ("Open external conversation"@, Action::ExternalOpen(s.seq)),
            )
        }),
{
}

/// Whether an action reads one of the first pieces that something was left out of, from its start.
pub open spec fn reads_piece(a: Action, v: Seq<Piece>, n: int) -> bool {
    exists|j: int|
        0 <= j < n && (#[trigger] v[j]).omitted && a == (Action::Window {
            source: v[j].source,
            offset: 0,
        })
}

/// At most 64 pieces of a block can be read, each one from which something was left out, and each
/// from its start.
pub proof fn law_piece_items(v: Seq<Piece>, n: int)
    requires
        0 <= n <= v.len(),
    ensures
        piece_items(v, n).len() <= 64,
        forall|i: int|
            0 <= i < piece_items(v, n).len() ==> reads_piece(
                (#[trigger] piece_items(v, n)[i]).1,
                v,
                n,
            ),
    decreases n,
{
    if n > 0 {
        law_piece_items(v, n - 1);
        let before = piece_items(v, n - 1);
        let items = piece_items(v, n);
        assert forall|i: int| 0 <= i < items.len() implies reads_piece(
            (#[trigger] items[i]).1,
            v,
            n,
        ) by {
            if i < before.len() {
                assert(items[i] == before[i]);
                let j = choose|j: int|
                    0 <= j < n - 1 && (#[trigger] v[j]).omitted && before[i].1 == (Action::Window {
                        source: v[j].source,
                        offset: 0,
                    });
                assert(v[j].omitted);
            } else {
                assert(v[n - 1].omitted);
            }
        }
    }
}

/// What a submission holds is shown in order, a line break between its texts; a reference is shown by
/// where it comes from and what it begins with, and one that is not known is left out.
pub proof fn law_submission_parts(p: Seq<PartView>, v: Seq<Quoted>, n: int, k: int)
    requires
        0 <= n < p.len(),
        0 <= k < v.len(),
        forall|j: int| 0 <= j < k ==> (#[trigger] v[j]).id != v[k].id,
    ensures
        parts_text(p, v, 0) is None,
        parts_text(p, v, n) is None && p[n] is Text ==> parts_text(p, v, n + 1) == Some(p[n]->Text_0),
        parts_text(p, v, n) is Some && p[n] is Text ==> parts_text(p, v, n + 1) == Some(
            parts_text(p, v, n)->0 + "\n"@ + p[n]->Text_0,
        ),
        part_text(PartView::Reference(v[k].id), v) == Some(
            "Reference "@ + v[k].source@ + " · through record "@ + number::digits(
                v[k].through as nat,
            ) + "\n"@ + v[k].preview@,
        ),
{
    lemma_quote_of(v, k, v.len() as int);
}

proof fn lemma_quote_of(v: Seq<Quoted>, k: int, n: int)
    requires
        0 <= k < v.len(),
        0 <= n <= v.len(),
        forall|j: int| 0 <= j < k ==> (#[trigger] v[j]).id != v[k].id,
    ensures
        n <= k ==> quote_of(v, v[k].id, n) is None,
        n > k ==> quote_of(v, v[k].id, n) == Some(
            "Reference "@ + v[k].source@ + " · through record "@ + number::digits(
                v[k].through as nat,
            ) + "\n"@ + v[k].preview@,
        ),
    decreases n,
{
    if n > 0 {
        lemma_quote_of(v, k, n - 1);
    }
}

} // verus!
