//! The decisions of the fullscreen client that belong to no screen of its own.
use vstd::prelude::*;
use vstd::string::*;
use crate::actions::Action;
use crate::answers;
use crate::clipboard::{Delivery, COPY_BYTES};
use crate::dispatch::BUSY_TASKS;
use crate::lanes;
use crate::lanes::{Lanes, WorkKind};
use crate::line_client::{CancelTarget, CancelView};
use crate::setup::{Command, CommandView};
use crate::submission;
use crate::submission::Submission;
use crate::text;

verus! {

/// Whether a turn runs, and which.
#[derive(Debug)]
pub struct Activity {
    pub active: bool,
    pub live_turn: Option<String>,
}

/// What a recorded fact says of turns.
#[derive(Debug)]
pub enum TurnFact {
    Accepted(String),
    Terminal,
    Other,
}

impl Activity {
    /// What is known when a conversation comes in front.
    pub fn new(turn: Option<String>) -> (r: Activity)
        ensures
            r.active == (turn is Some),
            r.live_turn == turn,
    {
        Activity { active: turn.is_some(), live_turn: turn }
    }

    /// Takes in a fact. Says whether the conversation is looked at anew.
    pub fn fact(&mut self, fact: TurnFact) -> (inspect: bool)
        ensures
            match fact {
                TurnFact::Accepted(turn) => !inspect && *final(self) == (Activity {
                    active: true,
                    live_turn: Some(turn),
                }),
                TurnFact::Terminal => inspect && *final(self) == (Activity {
                    active: false,
                    live_turn: None,
                }),
                TurnFact::Other => !inspect && *final(self) == *old(self),
            },
    {
        match fact {
            TurnFact::Accepted(turn) => {
                self.active = true;
                self.live_turn = Some(turn);
                false
            },
            TurnFact::Terminal => {
                self.active = false;
                self.live_turn = None;
                true
            },
            TurnFact::Other => false,
        }
    }
}

/// What a command of the application leads to.
#[derive(Debug)]
pub enum Ran {
    Quit,
    Help,
    Plugins,
    Effort,
    /// The action is done; names of conversations are looked up first.
    Act(Action),
    /// The conversation of a name is opened, or captured from.
    Named { name: String, capture: bool },
    /// Something is set up.
    Setup(Command),
}

/// What a [`Ran`] says.
pub enum RanView {
    Quit,
    Help,
    Plugins,
    Effort,
    Act(Action),
    Named { name: Seq<char>, capture: bool },
    Setup(CommandView),
}

impl View for Ran {
    type V = RanView;

    open spec fn view(&self) -> RanView {
        match self {
            Ran::Quit => RanView::Quit,
            Ran::Help => RanView::Help,
            Ran::Plugins => RanView::Plugins,
            Ran::Effort => RanView::Effort,
            Ran::Act(a) => RanView::Act(*a),
            Ran::Named { name, capture } => RanView::Named { name: name@, capture: *capture },
            Ran::Setup(c) => RanView::Setup(c@),
        }
    }
}

/// What a command leads to.
pub open spec fn ran(c: CommandView) -> RanView {
    match c {
        CommandView::Quit => RanView::Quit,
        CommandView::Help => RanView::Help,
        CommandView::Plugins => RanView::Plugins,
        CommandView::Effort => RanView::Effort,
        CommandView::New => RanView::Act(Action::New),
        CommandView::Resume(None) => RanView::Act(Action::Recent),
        CommandView::Resume(Some(name)) => RanView::Named { name, capture: false },
        CommandView::Reference(None) => RanView::Act(Action::References),
        CommandView::Reference(Some(name)) => RanView::Named { name, capture: true },
        other => RanView::Setup(other),
    }
}

/// Runs a command of the application.
pub fn run_command(c: Command) -> (r: Ran)
    ensures
        r@ == ran(c@),
{
    match c {
        Command::Quit => Ran::Quit,
        Command::Help => Ran::Help,
        Command::Plugins => Ran::Plugins,
        Command::Effort => Ran::Effort,
        Command::New => Ran::Act(Action::New),
        Command::Resume(None) => Ran::Act(Action::Recent),
        Command::Resume(Some(name)) => Ran::Named { name, capture: false },
        Command::Reference(None) => Ran::Act(Action::References),
        Command::Reference(Some(name)) => Ran::Named { name, capture: true },
        other => Ran::Setup(other),
    }
}

/// What is copied from.
#[derive(Clone, Copy, Debug, PartialEq, Eq, Structural)]
pub struct CopyFrom {
    pub tasks: usize,
    /// Whether a menu is shown, and the conversation that is selected in it.
    pub menu: bool,
    pub session: Option<u64>,
    /// Whether something else is written.
    pub writing: bool,
    /// The bytes of the text that is read.
    pub detail: Option<usize>,
    /// Whether something is selected, and whether the frame shows it as it is now.
    pub selection: bool,
    pub current: bool,
}

/// What copying leads to.
#[derive(Clone, Copy, Debug, PartialEq, Eq, Structural)]
pub enum Copying {
    Nothing,
    Busy,
    Session(u64),
    Detail,
    TooLarge,
    Selection,
    NotYet,
}

impl Copying {
    /// What is told of it.
    pub fn notice(&self) -> (r: Option<&'static str>)
        ensures
            match self {
                Copying::Busy => r matches Some(s) && s@ == "Copy queue is busy"@,
                Copying::TooLarge => r matches Some(s) && s@
                    == "Detail exceeds the 4 MiB copy limit"@,
                Copying::NotYet => r matches Some(s) && s@
                    == "Copy will be available after the current frame is displayed"@,
                _ => r is None,
            },
    {
        match self {
            Copying::Busy => Some("Copy queue is busy"),
            Copying::TooLarge => Some("Detail exceeds the 4 MiB copy limit"),
            Copying::NotYet => Some(
                "Copy will be available after the current frame is displayed",
            ),
            _ => None,
        }
    }
}

/// What copying leads to: what is in front is copied.
pub open spec fn copied(c: CopyFrom) -> Copying {
    if c.tasks >= BUSY_TASKS {
        Copying::Busy
    } else if c.menu {
        match c.session {
            Some(id) => Copying::Session(id),
            None => Copying::Nothing,
        }
    } else if c.writing {
        Copying::Nothing
    } else {
        match c.detail {
            Some(n) => if n > COPY_BYTES {
                Copying::TooLarge
            } else {
                Copying::Detail
            },
            None => if !c.selection {
                Copying::Nothing
            } else if !c.current {
                Copying::NotYet
            } else {
                Copying::Selection
            },
        }
    }
}

/// What copying leads to.
pub fn copy(c: CopyFrom) -> (r: Copying)
    ensures
        r == copied(c),
{
    if c.tasks >= BUSY_TASKS {
        return Copying::Busy;
    }
    if c.menu {
        return match c.session {
            Some(id) => Copying::Session(id),
            None => Copying::Nothing,
        };
    }
    if c.writing {
        return Copying::Nothing;
    }
    match c.detail {
        Some(n) => if n > COPY_BYTES {
            Copying::TooLarge
        } else {
            Copying::Detail
        },
        None => if !c.selection {
            Copying::Nothing
        } else if !c.current {
            Copying::NotYet
        } else {
            Copying::Selection
        },
    }
}

/// What is scrolled.
#[derive(Clone, Copy, Debug, PartialEq, Eq, Structural)]
pub struct ScrollFrom {
    pub dialog: bool,
    /// Whether the frame shows a dialog, and how far it can be scrolled.
    pub dialog_shown: bool,
    pub maximum: usize,
    pub answer: bool,
    /// Where the text that is read begins on the screen.
    pub detail: Option<usize>,
    /// Whether the frame belongs to the conversation, shows nothing of it, or shows its sources as
    /// they are.
    pub belongs: bool,
    pub empty: bool,
    pub sources: bool,
    pub at_bottom: bool,
}

/// What scrolling leads to.
#[derive(Clone, Copy, Debug, PartialEq, Eq, Structural)]
pub enum Scrolling {
    Nothing,
    /// The question is scrolled.
    Answer,
    /// The text that is read begins elsewhere.
    Detail(usize),
    /// Earlier history is read.
    History,
    /// The conversation moves; at its end it is followed again.
    Move,
}

/// What scrolling leads to.
pub open spec fn scrolled(s: ScrollFrom, up: bool) -> Scrolling {
    if s.dialog && !s.dialog_shown {
        Scrolling::Nothing
    } else if s.answer {
        Scrolling::Answer
    } else {
        match s.detail {
            Some(at) => Scrolling::Detail(answers::scrolled(at, up, s.maximum)),
            None => if !s.belongs {
                Scrolling::Nothing
            } else if s.empty {
                if up {
                    Scrolling::History
                } else {
                    Scrolling::Nothing
                }
            } else if !s.sources || (!up && s.at_bottom) {
                Scrolling::Nothing
            } else {
                Scrolling::Move
            },
        }
    }
}

/// What scrolling leads to.
pub fn scroll(s: ScrollFrom, up: bool) -> (r: Scrolling)
    ensures
        r == scrolled(s, up),
{
    if s.dialog && !s.dialog_shown {
        return Scrolling::Nothing;
    }
    if s.answer {
        return Scrolling::Answer;
    }
    if let Some(at) = s.detail {
        return Scrolling::Detail(answers::scroll_by(at, up, s.maximum));
    }
    if !s.belongs {
        return Scrolling::Nothing;
    }
    if s.empty {
        return if up {
            Scrolling::History
        } else {
            Scrolling::Nothing
        };
    }
    if !s.sources || (!up && s.at_bottom) {
        return Scrolling::Nothing;
    }
    Scrolling::Move
}

/// The inputs that are cancelled, of the first `n` that are pending: those that came from here.
pub open spec fn cancelled_messages(
    pending: Seq<Seq<char>>,
    owned: Seq<Seq<char>>,
    n: int,
) -> Seq<CancelView>
    decreases n,
{
    if n <= 0 {
        seq![]
    } else {
        let before = cancelled_messages(pending, owned, n - 1);
        if owned.contains(pending[n - 1]) {
            before.push(CancelView::Message(pending[n - 1]))
        } else {
            before
        }
    }
}

/// What is cancelled: the turn that runs, and the pending inputs that came from here.
pub open spec fn cancels(turn: Option<Seq<char>>, pending: Seq<Seq<char>>, owned: Seq<Seq<char>>) -> Seq<
    CancelView,
> {
    let messages = cancelled_messages(pending, owned, pending.len() as int);
    match turn {
        Some(turn) => seq![CancelView::Turn(turn)] + messages,
        None => messages,
    }
}

pub open spec fn targets_of(v: Seq<CancelTarget>) -> Seq<CancelView> {
    Seq::new(v.len(), |i: int| v[i]@)
}

/// What is cancelled, in order.
pub fn cancel_targets(turn: Option<&str>, pending: &Vec<String>, owned: &Vec<String>) -> (r: Vec<
    CancelTarget,
>)
    ensures
        targets_of(r@) == cancels(
            match turn {
                Some(t) => Some(t@),
                None => None,
            },
            text::views(pending@),
            text::views(owned@),
        ),
{
    let ghost ids = text::views(pending@);
    let ghost ours = text::views(owned@);
    let mut out: Vec<CancelTarget> = Vec::new();
    if let Some(turn) = turn {
        out.push(CancelTarget::Turn(turn.to_owned()));
    }
    let ghost first = targets_of(out@);
    let mut i: usize = 0;
    proof {
        assert(first =~= (match turn {
            Some(t) => seq![CancelView::Turn(t@)],
            None => seq![],
        }));
        assert(first =~= first + cancelled_messages(ids, ours, 0));
    }
    while i < pending.len()
        invariant
            i <= pending@.len(),
            ids == text::views(pending@),
            ours == text::views(owned@),
            targets_of(out@) == first + cancelled_messages(ids, ours, i as int),
        decreases pending@.len() - i,
    {
        let ghost before = targets_of(out@);
        proof {
            assert(ids[i as int] == pending@[i as int]@);
        }
        if submission::contains(owned, pending[i].as_str()) {
            out.push(CancelTarget::Message(pending[i].clone()));
            proof {
                assert(targets_of(out@) =~= before.push(CancelView::Message(ids[i as int])));
                assert(first + cancelled_messages(ids, ours, i as int + 1) =~= before.push(
                    CancelView::Message(ids[i as int]),
                ));
            }
        }
        i += 1;
    }
    proof {
        match turn {
            Some(t) => {},
            None => {
                assert(first + cancelled_messages(ids, ours, ids.len() as int)
                    =~= cancelled_messages(ids, ours, ids.len() as int));
            },
        }
    }
    out
}

/// Whether a cancellation that had to wait is made now.
pub fn resumes_cancelling(v: &Lanes) -> (r: bool)
    ensures
        r == (v.cancellation_queued && !v.cancelling && v.admits(WorkKind::Cancel)),
{
    v.cancellation_queued && !v.cancelling && v.tasks < lanes::limit_of(WorkKind::Cancel)
}

/// Says why another conversation is not shown yet, once it was opened: an input of this one has no
/// known outcome.
pub fn attach_refused(s: &Submission) -> (r: Option<&'static str>)
    ensures
        match s@.request {
            Some(_) => r matches Some(told) && told@
                == "Resolve the outstanding submission before changing sessions"@,
            None => r is None,
        },
{
    match s.request() {
        Some(_) => Some("Resolve the outstanding submission before changing sessions"),
        None => None,
    }
}

/// What is told when an input that waited becomes the next turn. Inputs of others are not told of.
pub fn promoted_told(s: &Submission, promoted: Option<&str>) -> (r: Option<&'static str>)
    ensures
        match promoted {
            Some(id) if s@.owned.contains(id@) => r matches Some(told) && told@
                == "Queued input will start the next turn"@,
            _ => r is None,
        },
{
    match promoted {
        Some(id) => if s.owns(id) {
            Some("Queued input will start the next turn")
        } else {
            None
        },
        None => None,
    }
}

/// What is told of a copy, and what goes to the terminal.
#[derive(Debug)]
pub struct CopyTold {
    pub status: Option<String>,
    pub problem: Option<&'static str>,
}

/// What is told of a copy: its status, and where the terminal takes no more commands, that it was
/// not asked. `sent` says whether the terminal took the command that there was.
pub fn copy_told(d: Delivery, sent: bool) -> (r: CopyTold)
    ensures
        d.status@.len() == 0 ==> r.status is None,
        d.status@.len() > 0 ==> (r.status matches Some(s) && s@ == d.status@),
        match r.problem {
            Some(s) => d.osc is Some && !sent && s@
                == "Copy failed: terminal command queue is busy"@,
            None => d.osc is None || sent,
        },
{
    let problem: Option<&'static str> = if d.osc.is_some() && !sent {
        Some("Copy failed: terminal command queue is busy")
    } else {
        None
    };
    CopyTold {
        status: if d.status.as_str().is_empty() {
            None
        } else {
            Some(d.status)
        },
        problem,
    }
}

/// Whether what an observer tells is taken in: it watches the conversation that is in front, or no
/// conversation in particular.
pub fn is_observed(observed: Option<u64>, generation: u64) -> (r: bool)
    ensures
        r == (observed matches Some(of) ==> of == generation),
{
    match observed {
        Some(of) => of == generation,
        None => true,
    }
}

/// What a frame shows.
#[derive(Clone, Copy, Debug, PartialEq, Eq, Structural)]
pub enum Screen {
    Profiles,
    External,
    Conversation,
}

/// The dialog over it.
#[derive(Clone, Copy, Debug, PartialEq, Eq, Structural)]
pub enum Over {
    Nothing,
    Setup,
    Help,
}

/// What a frame shows, and the dialog over it.
pub fn screen(profiles: bool, external: bool, setup: bool, help: bool) -> (r: (Screen, Over))
    ensures
        r.0 == (if profiles {
            Screen::Profiles
        } else if external {
            Screen::External
        } else {
            Screen::Conversation
        }),
        r.1 == (if setup {
            Over::Setup
        } else if help {
            Over::Help
        } else {
            Over::Nothing
        }),
{
    (
        if profiles {
            Screen::Profiles
        } else if external {
            Screen::External
        } else {
            Screen::Conversation
        },
        if setup {
            Over::Setup
        } else if help {
            Over::Help
        } else {
            Over::Nothing
        },
    )
}

/// A request of a conversation that waits for its answer.
#[derive(Debug)]
pub struct Waiting {
    pub handle: u64,
    pub request: String,
    pub turn: String,
    pub session: String,
}

/// Whether a request is the one that is looked for.
pub open spec fn is_wanted(w: Waiting, request: Seq<char>, turn: Seq<char>, session: Seq<char>) -> bool {
    w.request@ == request && w.turn@ == turn && w.session@ == session
}

/// The first of some requests that is the one that is looked for.
pub open spec fn wanted_at(
    v: Seq<Waiting>,
    request: Seq<char>,
    turn: Seq<char>,
    session: Seq<char>,
) -> Option<u64>
    decreases v.len(),
{
    if v.len() == 0 {
        None
    } else if is_wanted(v[0], request, turn, session) {
        Some(v[0].handle)
    } else {
        wanted_at(v.drop_first(), request, turn, session)
    }
}

/// What is opened of what needs attention, as long as it is still pending in this conversation.
pub fn attention_action(
    question: bool,
    v: &Vec<Waiting>,
    request: &str,
    turn: &str,
    session: &str,
) -> (r: Option<Action>)
    ensures
        r == (match wanted_at(v@, request@, turn@, session@) {
            Some(handle) => Some(
                if question {
                    Action::Question(handle)
                } else {
                    Action::Approval(handle)
                },
            ),
            None => None,
        }),
{
    let mut i: usize = 0;
    proof {
        assert(v@.skip(0) =~= v@);
    }
    while i < v.len()
        invariant
            i <= v@.len(),
            wanted_at(v@, request@, turn@, session@) == wanted_at(
                v@.skip(i as int),
                request@,
                turn@,
                session@,
            ),
        decreases v@.len() - i,
    {
        if text::same(v[i].request.as_str(), request) && text::same(v[i].turn.as_str(), turn)
            && text::same(v[i].session.as_str(), session) {
            return Some(
                if question {
                    Action::Question(v[i].handle)
                } else {
                    Action::Approval(v[i].handle)
                },
            );
        }
        proof {
            assert(v@.skip(i as int).drop_first() =~= v@.skip(i as int + 1));
        }
        i += 1;
    }
    None
}

/// Only inputs that came from here are cancelled.
pub proof fn law_cancels_own(
    turn: Option<Seq<char>>,
    pending: Seq<Seq<char>>,
    owned: Seq<Seq<char>>,
    i: int,
)
    requires
        0 <= i < cancels(turn, pending, owned).len(),
    ensures
        cancels(turn, pending, owned)[i] matches CancelView::Message(id) ==> owned.contains(id)
            && pending.contains(id),
{
    lemma_cancelled(pending, owned, pending.len() as int);
    let messages = cancelled_messages(pending, owned, pending.len() as int);
    if turn is Some {
        if i > 0 {
            assert(cancels(turn, pending, owned)[i] == messages[i - 1]);
        }
    }
}

proof fn lemma_cancelled(pending: Seq<Seq<char>>, owned: Seq<Seq<char>>, n: int)
    requires
        0 <= n <= pending.len(),
    ensures
        forall|i: int|
            0 <= i < cancelled_messages(pending, owned, n).len() ==> (
            #[trigger] cancelled_messages(pending, owned, n)[i] matches CancelView::Message(id)
                && owned.contains(id) && pending.contains(id)),
    decreases n,
{
    if n > 0 {
        lemma_cancelled(pending, owned, n - 1);
        let before = cancelled_messages(pending, owned, n - 1);
        let all = cancelled_messages(pending, owned, n);
        assert forall|i: int| 0 <= i < all.len() implies (#[trigger] all[i] matches
            CancelView::Message(id) && owned.contains(id) && pending.contains(id)) by {
            if i < before.len() {
                assert(all[i] == before[i]);
            } else {
                assert(pending.contains(pending[n - 1]));
            }
        }
    }
}

/// What is told where the request that a notification named waits no longer.
pub fn attention_told(found: &Option<Action>) -> (r: Option<&'static str>)
    ensures
        match found {
            Some(_) => r is None,
            None => r matches Some(s) && s@ == "Request is no longer pending"@,
        },
{
    match found {
        Some(_) => None,
        None => Some("Request is no longer pending"),
    }
}

/// What is told of another conversation that took the place of the one that was open: what the
/// settings say of it, where they are open.
pub fn switched_told(settings: Option<&str>) -> (r: Option<String>)
    ensures
        match settings {
            Some(said) => r matches Some(s) && s@ == "Session changed. "@ + said@,
            None => r is None,
        },
{
    match settings {
        Some(said) => Some(text::cat2("Session changed. ", said)),
        None => None,
    }
}

/// What is told of a conversation that cannot be watched.
pub fn unobserved_told(problem: &str) -> (r: String)
    ensures
        r@ == "Session observation failed: "@ + problem@,
{
    text::cat2("Session observation failed: ", problem)
}

/// The steps in which a conversation is opened.
#[derive(Clone, Copy, Debug, PartialEq, Eq, Structural)]
pub enum OpenStep {
    /// The directory is made known.
    Workspace,
    /// The conversation is made.
    Creation,
    /// Its header is read.
    Header,
}

/// What is told of a conversation that could not be opened.
pub fn opening_failed(step: OpenStep, problem: &str) -> (r: String)
    ensures
        r@ == (match step {
            OpenStep::Workspace => "Workspace selection failed: "@,
            OpenStep::Creation => "Session creation failed: "@,
            OpenStep::Header => "Session header read failed: "@,
        }) + problem@,
{
    match step {
        OpenStep::Workspace => text::cat2("Workspace selection failed: ", problem),
        OpenStep::Creation => text::cat2("Session creation failed: ", problem),
        OpenStep::Header => text::cat2("Session header read failed: ", problem),
    }
}

/// What each command of the application leads to; those of the setup go to the setup as they are.
pub proof fn law_ran(name: Seq<char>, c: CommandView)
    ensures
        ran(CommandView::Quit) == RanView::Quit,
        ran(CommandView::Help) == RanView::Help,
        ran(CommandView::Plugins) == RanView::Plugins,
        ran(CommandView::Effort) == RanView::Effort,
        ran(CommandView::New) == RanView::Act(Action::New),
        ran(CommandView::Resume(None)) == RanView::Act(Action::Recent),
        ran(CommandView::Resume(Some(name))) == (RanView::Named { name, capture: false }),
        ran(CommandView::Reference(None)) == RanView::Act(Action::References),
        ran(CommandView::Reference(Some(name))) == (RanView::Named { name, capture: true }),
        c is Models || c is Login || c is Invalid ==> ran(c) == RanView::Setup(c),
        ran(c) is Quit ==> c is Quit,
{
}

/// Copying takes what is in front: from a menu the conversation it names, from a text that is read
/// the text where it has at most 4 MiB, and otherwise the selection once it is current; with eight
/// requests under way, or while something is written, nothing.
pub proof fn law_copied(c: CopyFrom)
    ensures
        copied(c) is Busy <==> c.tasks >= 8,
        c.tasks < 8 ==> {
            &&& copied(c) matches Copying::Session(id) ==> c.menu && c.session == Some(id)
            &&& c.menu && c.session is Some ==> copied(c) is Session
            &&& copied(c) is Detail <==> !c.menu && !c.writing && c.detail is Some && c.detail->0
                <= 4 * 1024 * 1024
            &&& copied(c) is TooLarge <==> !c.menu && !c.writing && c.detail is Some && c.detail->0
                > 4 * 1024 * 1024
            &&& copied(c) is Selection <==> !c.menu && !c.writing && c.detail is None && c.selection
                && c.current
            &&& copied(c) is NotYet <==> !c.menu && !c.writing && c.detail is None && c.selection
                && !c.current
        },
{
}

/// Scrolling moves what is in front: the answer, the text that is read, or the conversation, whose
/// history is read back from an empty view.
pub proof fn law_scrolling(s: ScrollFrom, up: bool)
    requires
        !s.dialog || s.dialog_shown,
    ensures
        scrolled(s, up) is Answer <==> s.answer,
        !s.answer ==> (s.detail matches Some(at) ==> scrolled(s, up) == Scrolling::Detail(
            answers::scrolled(at, up, s.maximum),
        )),
        !s.answer && s.detail is None ==> {
            &&& scrolled(s, up) is History <==> s.belongs && s.empty && up
            &&& scrolled(s, up) is Move <==> s.belongs && !s.empty && s.sources && (up
                || !s.at_bottom)
            &&& scrolled(s, up) is History || scrolled(s, up) is Move || scrolled(s, up) is Nothing
        },
{
}

/// The running turn is cancelled first, and then every pending input that came from here, in the
/// order in which they are pending.
pub proof fn law_cancels_all(
    turn: Option<Seq<char>>,
    pending: Seq<Seq<char>>,
    owned: Seq<Seq<char>>,
    m: Seq<char>,
)
    ensures
        turn matches Some(t) ==> cancels(turn, pending, owned).len() > 0 && cancels(
            turn,
            pending,
            owned,
        )[0] == CancelView::Turn(t),
        cancels(turn, pending, owned).contains(CancelView::Message(m)) <==> pending.contains(m)
            && owned.contains(m),
        cancels(turn, pending, owned).len() == cancels(None, pending, owned).len() + (if turn
            is Some {
            1int
        } else {
            0int
        }),
{
    let n = pending.len() as int;
    lemma_cancels_message(pending, owned, n, m);
    assert(pending.take(n) =~= pending);
    let messages = cancelled_messages(pending, owned, n);
    let all = cancels(turn, pending, owned);
    if messages.contains(CancelView::Message(m)) {
        let i = messages.index_of(CancelView::Message(m));
        if turn is Some {
            assert(all[i + 1] == CancelView::Message(m));
        }
    }
    if all.contains(CancelView::Message(m)) && turn is Some {
        let i = all.index_of(CancelView::Message(m));
        assert(messages[i - 1] == CancelView::Message(m));
    }
}

proof fn lemma_cancels_message(
    pending: Seq<Seq<char>>,
    owned: Seq<Seq<char>>,
    n: int,
    m: Seq<char>,
)
    requires
        0 <= n <= pending.len(),
    ensures
        cancelled_messages(pending, owned, n).contains(CancelView::Message(m)) <==> pending.take(
            n,
        ).contains(m) && owned.contains(m),
    decreases n,
{
    if n > 0 {
        lemma_cancels_message(pending, owned, n - 1, m);
        let before = cancelled_messages(pending, owned, n - 1);
        let last = CancelView::Message(pending[n - 1]);
        let w = before.push(last);
        let x = CancelView::Message(m);
        let front = pending.take(n - 1);
        let all = pending.take(n);
        assert(all[n - 1] == pending[n - 1]);
        assert(w[w.len() - 1] == last);
        if before.contains(x) {
            assert(w[before.index_of(x)] == x);
        }
        if w.contains(x) && x != last {
            assert(before[w.index_of(x)] == x);
        }
        if front.contains(m) {
            assert(all[front.index_of(m)] == m);
        }
        if all.contains(m) && m != pending[n - 1] {
            assert(front[all.index_of(m)] == m);
        }
    }
}

/// The request that is looked for is one with that name, of that turn and of that conversation.
pub proof fn law_wanted(v: Seq<Waiting>, request: Seq<char>, turn: Seq<char>, session: Seq<char>)
    ensures
        match wanted_at(v, request, turn, session) {
            Some(handle) => exists|i: int|
                0 <= i < v.len() && (#[trigger] v[i]).handle == handle && v[i].request@ == request
                    && v[i].turn@ == turn && v[i].session@ == session,
            None => forall|i: int|
                0 <= i < v.len() ==> (#[trigger] v[i]).request@ != request || v[i].turn@ != turn
                    || v[i].session@ != session,
        },
    decreases v.len(),
{
    if v.len() > 0 && !is_wanted(v[0], request, turn, session) {
        let rest = v.drop_first();
        law_wanted(rest, request, turn, session);
        match wanted_at(rest, request, turn, session) {
            Some(handle) => {
                let i = choose|i: int|
                    0 <= i < rest.len() && (#[trigger] rest[i]).handle == handle && rest[i].request@
                        == request && rest[i].turn@ == turn && rest[i].session@ == session;
                assert(v[i + 1].handle == handle);
            },
            None => {
                assert forall|i: int| 0 <= i < v.len() implies (#[trigger] v[i]).request@ != request
                    || v[i].turn@ != turn || v[i].session@ != session by {
                    if i > 0 {
                        assert(rest[i - 1] == v[i]);
                    }
                }
            },
        }
    }
}

} // verus!
