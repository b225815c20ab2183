//! Submitting what was written, exactly once.
//!
//! An input that was submitted keeps its identity until its outcome is known: it is only ever sent
//! again as it was.
use vstd::prelude::*;
use vstd::string::*;
use crate::editor;
use crate::editor::{Editor, EditorView, MAX_TEXT};
use crate::journal;
use crate::lanes;
use crate::lanes::{Lanes, Tag, WorkKind};
use crate::prompts;
use crate::prompts::{Prompts, PromptsView};
use crate::references;
use crate::references::{Part, PartView, ReferenceView, References};
use crate::setup;
use crate::setup::{Command, CommandView};
use crate::slash;
use crate::slash::literal;
use crate::text;
use crate::text::{byte_len, cat3, is_before, same, split_words, trim};

verus! {

/// The inputs that may be pending over all conversations.
pub const MAXIMUM_OWNED: usize = 1024;

/// An input with its identity.
#[derive(Debug)]
pub struct Request {
    pub message: String,
    pub parts: Vec<Part>,
    pub steer: bool,
}

/// What a [`Request`] says.
pub struct RequestView {
    pub message: Seq<char>,
    pub parts: Seq<PartView>,
    pub steer: bool,
}

impl View for Request {
    type V = RequestView;

    open spec fn view(&self) -> RequestView {
        RequestView {
            message: self.message@,
            parts: references::parts_of(self.parts@),
            steer: self.steer,
        }
    }
}

pub open spec fn request_of(r: Option<Request>) -> Option<RequestView> {
    match r {
        Some(r) => Some(r@),
        None => None,
    }
}

/// The text of an input that is a text and nothing else.
pub open spec fn only_text(parts: Seq<PartView>) -> Option<Seq<char>> {
    if parts.len() == 1 {
        match parts[0] {
            PartView::Text(s) => Some(s),
            PartView::Reference(_) => None,
        }
    } else {
        None
    }
}

/// The text that an input begins with.
pub open spec fn first_text(parts: Seq<PartView>) -> Option<Seq<char>> {
    if parts.len() > 0 {
        match parts[0] {
            PartView::Text(s) => Some(s),
            PartView::Reference(_) => None,
        }
    } else {
        None
    }
}

fn text_only(parts: &Vec<Part>) -> (r: Option<&String>)
    ensures
        match r {
            Some(s) => only_text(references::parts_of(parts@)) == Some(s@),
            None => only_text(references::parts_of(parts@)) is None,
        },
{
    if parts.len() != 1 {
        return None;
    }
    proof {
        assert(references::parts_of(parts@)[0] == parts@[0]@);
    }
    match &parts[0] {
        Part::Text(s) => Some(s),
        Part::Reference(_) => None,
    }
}

/// The inputs of this client that are pending.
#[derive(Debug)]
pub struct Submission {
    request: Option<Request>,
    busy: bool,
    cancel_when_accepted: bool,
    rejected: bool,
    owned: Vec<String>,
}

/// What a [`Submission`] says.
pub struct SubmissionView {
    /// The input whose outcome is not known, or that was rejected.
    pub request: Option<RequestView>,
    /// Whether it is under way.
    pub busy: bool,
    pub cancel_when_accepted: bool,
    pub rejected: bool,
    /// The identities of the inputs that came from here.
    pub owned: Seq<Seq<char>>,
}

impl View for Submission {
    type V = SubmissionView;

    closed spec fn view(&self) -> SubmissionView {
        SubmissionView {
            request: request_of(self.request),
            busy: self.busy,
            cancel_when_accepted: self.cancel_when_accepted,
            rejected: self.rejected,
            owned: text::views(self.owned@),
        }
    }
}

/// What others say of an input that is to be submitted.
#[derive(Debug)]
pub struct Circumstances {
    /// Whether it is sent into the turn that runs.
    pub steer: bool,
    /// Whether a turn runs.
    pub active: bool,
    /// Whether the second word of the text names a conversation.
    pub names_session: bool,
    /// The command whose outcome is not known.
    pub unresolved: Option<String>,
    /// The pending inputs of the other conversations.
    pub elsewhere: usize,
    /// A fresh identity, or why there is none.
    pub identity: Result<String, String>,
    /// Why the owner of the conversation refuses the input.
    pub problem: Option<String>,
}

/// What comes of submitting.
#[derive(Debug)]
pub enum Step {
    /// It is not done, for the reason that is told.
    Refused(String),
    /// The application runs the command.
    Run(Command),
    /// There is nothing to submit.
    Nothing,
    /// There is nothing to send again.
    NoSubmission,
    /// The input is sent; with `command` it is first tried as one of the conversation.
    Send { tag: Tag, command: bool },
}

/// What a [`Step`] says.
pub enum StepView {
    Refused(Seq<char>),
    Run(CommandView),
    Nothing,
    NoSubmission,
    Send { tag: Tag, command: bool },
}

impl View for Step {
    type V = StepView;

    open spec fn view(&self) -> StepView {
        match self {
            Step::Refused(s) => StepView::Refused(s@),
            Step::Run(c) => StepView::Run(c@),
            Step::Nothing => StepView::Nothing,
            Step::NoSubmission => StepView::NoSubmission,
            Step::Send { tag, command } => StepView::Send { tag: *tag, command: *command },
        }
    }
}

/// Whether a text is the old name of choosing a model.
pub open spec fn old_model_command(s: Seq<char>) -> bool {
    !slash::literal_text(s) && text::words(s).len() > 0 && text::words(s)[0]
        == "/model-selection"@
}

/// What stands in the way of a new input that is no command, if anything does.
pub open spec fn barred(
    v: SubmissionView,
    s: Seq<char>,
    references: nat,
    c: Circumstances,
) -> Option<StepView> {
    if v.request is Some {
        Some(
            StepView::Refused(
                "Resolve the previous submission through Actions → Retry; this draft is retained"@,
            ),
        )
    } else if text::trimmed(s).len() == 0 && references == 0 {
        Some(StepView::Nothing)
    } else if c.steer && !c.active {
        Some(
            StepView::Refused(
                "No active turn in the latest snapshot; use Enter for the selected model"@,
            ),
        )
    } else if v.owned.len() + c.elsewhere >= MAXIMUM_OWNED {
        Some(StepView::Refused("Client pending-input limit reached; wait or cancel inputs"@))
    } else {
        match c.identity {
            Err(problem) => Some(StepView::Refused(problem@)),
            Ok(_) => match c.problem {
                Some(problem) => Some(StepView::Refused(problem@)),
                None => None,
            },
        }
    }
}

/// The input that a text and references are sent as.
pub open spec fn composed(
    s: Seq<char>,
    attached: Seq<references::ReferenceView>,
    c: Circumstances,
) -> RequestView {
    RequestView {
        message: c.identity->Ok_0@,
        parts: references::input_of(s, attached),
        steer: c.steer,
    }
}

/// What stands in the way of sending anything.
pub open spec fn blocked(v: SubmissionView, c: Circumstances) -> Option<StepView> {
    match c.unresolved {
        Some(id) => Some(
            StepView::Refused(
                "Command "@ + id@ + " is unresolved; use Actions → Session command result"@,
            ),
        ),
        None => if v.busy {
            Some(
                StepView::Refused("Submission is still being reconciled; draft retained"@),
            )
        } else {
            None
        },
    }
}

/// What a text that is submitted leads to by itself: a command of the application, if it is one.
pub open spec fn commanded(s: Seq<char>, cursor: int, c: Circumstances) -> Option<StepView> {
    if old_model_command(s) {
        Some(
            StepView::Refused(
                "Unknown command /model-selection. Use /model or /effort."@,
            ),
        )
    } else {
        match setup::commanded(s, c.names_session) {
            Some(command) => if cursor != text::size(s) || command is Invalid {
                Some(
                    StepView::Refused(
                        "Invalid application command or cursor not at end. Draft retained; /help lists usage."@,
                    ),
                )
            } else {
                Some(StepView::Run(command))
            },
            None => None,
        }
    }
}

/// Whether some texts stand in ascending order, none of them twice.
pub open spec fn ascending(v: Seq<Seq<char>>) -> bool {
    forall|i: int, j: int| 0 <= i < j < v.len() ==> text::before(#[trigger] v[i], #[trigger] v[j])
}

/// A set of texts with one more, which goes in front of the first that comes after it.
pub open spec fn with_text(v: Seq<Seq<char>>, s: Seq<char>) -> Seq<Seq<char>>
    decreases v.len(),
{
    if v.len() == 0 {
        seq![s]
    } else if v[0] == s {
        v
    } else if text::before(s, v[0]) {
        seq![s] + v
    } else {
        seq![v[0]] + with_text(v.drop_first(), s)
    }
}

/// A set of texts without one.
pub open spec fn without_text(v: Seq<Seq<char>>, s: Seq<char>) -> Seq<Seq<char>>
    decreases v.len(),
{
    if v.len() == 0 {
        seq![]
    } else {
        let before = without_text(v.drop_last(), s);
        if v.last() == s {
            before
        } else {
            before.push(v.last())
        }
    }
}

/// The submission once an input is sent, if there is a lane.
pub open spec fn sending(v: SubmissionView, r: RequestView, retry: bool, admitted: bool) -> SubmissionView {
    SubmissionView {
        request: Some(r),
        owned: with_text(v.owned, r.message),
        busy: admitted,
        rejected: !admitted && (!retry || v.rejected),
        ..v
    }
}

/// Whether an input is first tried as a command of the conversation.
pub open spec fn tries_command(r: RequestView, retry: bool) -> bool {
    !retry && (only_text(r.parts) matches Some(s) && !slash::literal_text(s))
}

/// What is said where no lane is free.
pub open spec fn queue_busy() -> Seq<char> {
    "Client request queue is busy; input retained"@
}

/// Says whether a text is among some texts.
pub fn contains(v: &Vec<String>, s: &str) -> (r: bool)
    ensures
        r == text::views(v@).contains(s@),
{
    let mut i: usize = 0;
    while i < v.len()
        invariant
            i <= v@.len(),
            forall|j: int| 0 <= j < i ==> text::views(v@)[j] != s@,
        decreases v@.len() - i,
    {
        if same(v[i].as_str(), s) {
            proof {
                assert(text::views(v@)[i as int] == s@);
            }
            return true;
        }
        proof {
            assert(text::views(v@)[i as int] == v@[i as int]@);
        }
        i += 1;
    }
    false
}

/// Adds a text to a set of texts, unless it is there.
pub fn insert_text(v: &mut Vec<String>, s: String)
    ensures
        text::views(final(v)@) == with_text(text::views(old(v)@), s@),
{
    let ghost all = text::views(v@);
    let mut i: usize = 0;
    proof {
        assert(all.skip(0) =~= all);
        assert(with_text(all, s@) =~= all.take(0) + with_text(all.skip(0), s@));
    }
    while i < v.len()
        invariant
            i <= v@.len(),
            all == text::views(v@),
            all == text::views(old(v)@),
            with_text(all, s@) == all.take(i as int) + with_text(all.skip(i as int), s@),
        decreases v@.len() - i,
    {
        let ghost rest = all.skip(i as int);
        proof {
            assert(rest[0] == v@[i as int]@);
        }
        if same(v[i].as_str(), s.as_str()) {
            proof {
                assert(all.take(i as int) + rest =~= all);
            }
            return;
        }
        if is_before(s.as_str(), v[i].as_str()) {
            let ghost seen = s@;
            v.insert(i, s);
            proof {
                assert(text::views(v@) =~= all.take(i as int) + (seq![seen] + rest));
            }
            return;
        }
        proof {
            assert(rest.drop_first() =~= all.skip(i as int + 1));
            assert(with_text(all, s@) =~= all.take(i as int + 1) + with_text(
                all.skip(i as int + 1),
                s@,
            ));
        }
        i += 1;
    }
    let ghost seen = s@;
    v.push(s);
    proof {
        assert(all.take(i as int) =~= all);
        assert(text::views(v@) =~= all + seq![seen]);
    }
}

fn remove_text(v: &Vec<String>, s: &str) -> (r: Vec<String>)
    ensures
        text::views(r@) == without_text(text::views(v@), s@),
{
    let ghost all = text::views(v@);
    let mut out: Vec<String> = Vec::new();
    let mut i: usize = 0;
    proof {
        assert(all.take(0) =~= Seq::<Seq<char>>::empty());
        assert(text::views(out@) =~= Seq::<Seq<char>>::empty());
    }
    while i < v.len()
        invariant
            i <= v@.len(),
            all == text::views(v@),
            text::views(out@) == without_text(all.take(i as int), s@),
        decreases v@.len() - i,
    {
        let ghost before = text::views(out@);
        proof {
            assert(all.take(i as int + 1).drop_last() =~= all.take(i as int));
            assert(all.take(i as int + 1).last() == v@[i as int]@);
        }
        if !same(v[i].as_str(), s) {
            out.push(v[i].clone());
            proof {
                assert(text::views(out@) =~= before.push(v@[i as int]@));
            }
        }
        i += 1;
    }
    proof {
        assert(all.take(i as int) =~= all);
    }
    out
}

/// What came of an input that was sent.
#[derive(Debug)]
pub struct Failure {
    /// Whether it may have been accepted all the same.
    pub unknown: bool,
    pub problem: String,
}

/// What is done once an input was answered.
#[derive(Debug)]
pub struct Answered {
    pub notice: Option<String>,
    /// Whether the conversation is kept from now on.
    pub durable: bool,
    /// Whether it is cancelled at once.
    pub cancel: bool,
}

/// The submission once its input was accepted.
pub open spec fn accepted(v: SubmissionView) -> SubmissionView {
    SubmissionView { busy: false, request: None, cancel_when_accepted: false, ..v }
}

/// The submission once its input was refused, or its outcome is unknown. A refused input goes
/// back to an empty editor; otherwise it stays to be sent again or discarded.
pub open spec fn refused(v: SubmissionView, unknown: bool, editor_empty: bool) -> SubmissionView {
    if unknown {
        SubmissionView { busy: false, rejected: false, ..v }
    } else {
        SubmissionView {
            busy: false,
            rejected: true,
            owned: match v.request {
                Some(r) => without_text(v.owned, r.message),
                None => v.owned,
            },
            cancel_when_accepted: false,
            request: if editor_empty {
                None
            } else {
                v.request
            },
            ..v
        }
    }
}

impl Submission {
    pub fn new() -> (r: Submission)
        ensures
            r@ == (SubmissionView {
                request: None,
                busy: false,
                cancel_when_accepted: false,
                rejected: false,
                owned: seq![],
            }),
    {
        let r = Submission {
            request: None,
            busy: false,
            cancel_when_accepted: false,
            rejected: false,
            owned: Vec::new(),
        };
        proof {
            assert(text::views(r.owned@) =~= Seq::<Seq<char>>::empty());
        }
        r
    }

    /// Whether an input is under way.
    pub fn busy(&self) -> (r: bool)
        ensures
            r == self@.busy,
    {
        self.busy
    }

    /// The input whose outcome is not known, or that was rejected.
    pub fn request(&self) -> (r: Option<&Request>)
        ensures
            match r {
                Some(q) => self@.request == Some(q@),
                None => self@.request is None,
            },
    {
        match &self.request {
            Some(q) => Some(q),
            None => None,
        }
    }

    pub fn rejected(&self) -> (r: bool)
        ensures
            r == self@.rejected,
    {
        self.rejected
    }

    /// The number of pending inputs.
    pub fn owned_len(&self) -> (n: usize)
        ensures
            n == self@.owned.len(),
    {
        self.owned.len()
    }

    fn command_step(&self, s: &str, cursor: usize, c: &Circumstances) -> (r: Option<Step>)
        ensures
            match r {
                Some(step) => commanded(s@, cursor as int, *c) == Some(step@),
                None => commanded(s@, cursor as int, *c) is None,
            },
    {
        let words = split_words(s);
        proof {
            assert(text::views(words@).len() == words@.len());
            if words@.len() > 0 {
                assert(text::words(s@)[0] == words@[0]@);
            }
        }
        if !literal(s) && words.len() > 0 && same(words[0].as_str(), "/model-selection") {
            return Some(
                Step::Refused("Unknown command /model-selection. Use /model or /effort.".to_owned()),
            );
        }
        match setup::command(s, c.names_session) {
            Some(command) => {
                let invalid: bool = matches!(command, Command::Invalid);
                if cursor != byte_len(s) || invalid {
                    Some(
                        Step::Refused(
                            "Invalid application command or cursor not at end. Draft retained; /help lists usage.".to_owned(),
                        ),
                    )
                } else {
                    Some(Step::Run(command))
                }
            },
            None => None,
        }
    }

    fn block_step(&self, c: &Circumstances) -> (r: Option<Step>)
        ensures
            match r {
                Some(step) => blocked(self@, *c) == Some(step@),
                None => blocked(self@, *c) is None,
            },
    {
        if let Some(id) = &c.unresolved {
            return Some(
                Step::Refused(
                    cat3(
                        "Command ",
                        id.as_str(),
                        " is unresolved; use Actions → Session command result",
                    ),
                ),
            );
        }
        if self.busy {
            return Some(
                Step::Refused("Submission is still being reconciled; draft retained".to_owned()),
            );
        }
        None
    }

    fn bar_step(&self, s: &str, references: usize, c: &Circumstances) -> (r: Option<Step>)
        ensures
            match r {
                Some(step) => barred(self@, s@, references as nat, *c) == Some(step@),
                None => barred(self@, s@, references as nat, *c) is None,
            },
    {
        if self.request.is_some() {
            return Some(
                Step::Refused(
                    "Resolve the previous submission through Actions → Retry; this draft is retained".to_owned(),
                ),
            );
        }
        if trim(s).as_str().is_empty() && references == 0 {
            return Some(Step::Nothing);
        }
        if c.steer && !c.active {
            return Some(
                Step::Refused(
                    "No active turn in the latest snapshot; use Enter for the selected model".to_owned(),
                ),
            );
        }
        if self.owned.len().saturating_add(c.elsewhere) >= MAXIMUM_OWNED {
            return Some(
                Step::Refused(
                    "Client pending-input limit reached; wait or cancel inputs".to_owned(),
                ),
            );
        }
        if let Err(problem) = &c.identity {
            return Some(Step::Refused(problem.clone()));
        }
        if let Some(problem) = &c.problem {
            return Some(Step::Refused(problem.clone()));
        }
        None
    }

    fn send(&mut self, retry: bool, lanes: &mut Lanes) -> (step: Step)
        requires
            old(self)@.request is Some,
        ensures
            ({
                let r = old(self)@.request->0;
                let admitted = old(lanes).admits(WorkKind::Submit);
                &&& final(self)@ == sending(old(self)@, r, retry, admitted)
                &&& step@ == (if admitted {
                    StepView::Send {
                        tag: old(lanes).tag(WorkKind::Submit),
                        command: tries_command(r, retry),
                    }
                } else {
                    StepView::Refused(queue_busy())
                })
                &&& *final(lanes) == (if admitted {
                    Lanes { tasks: (old(lanes).tasks + 1) as usize, ..*old(lanes) }
                } else {
                    *old(lanes)
                })
            }),
    {
        let ghost v = self@;
        let mut command: bool = false;
        let mut message: String = String::new();
        if let Some(r) = &self.request {
            message = r.message.clone();
            if !retry {
                if let Some(s) = text_only(&r.parts) {
                    command = !literal(s.as_str());
                }
            }
        }
        let ghost id = message@;
        insert_text(&mut self.owned, message);
        let was_rejected: bool = self.rejected;
        let tag = lanes.spawn(WorkKind::Submit);
        self.busy = tag.is_some();
        self.rejected = !self.busy && (!retry || was_rejected);
        proof {
            assert(self@.owned == with_text(v.owned, id));
        }
        match tag {
            Some(tag) => Step::Send { tag, command },
            None => Step::Refused("Client request queue is busy; input retained".to_owned()),
        }
    }

    /// Submits what is written, unless something stands in the way: then the draft stays as it is.
    pub fn submit(
        &mut self,
        editor: &mut Editor,
        draft: &mut References,
        prompts: &mut Prompts,
        lanes: &mut Lanes,
        session: &str,
        c: &Circumstances,
    ) -> (step: Step)
        requires
            old(editor).wf(),
            old(prompts).wf(),
        ensures
            final(editor).wf(),
            final(prompts).wf(),
            ({
                let s = old(editor)@.text;
                let v = old(self)@;
                let emptied = EditorView {
                    text: seq![],
                    cursor: 0,
                    history: journal::History::empty(),
                    ..old(editor)@
                };
                match commanded(s, old(editor)@.cursor, *c) {
                    Some(stop) => {
                        &&& step@ == stop
                        &&& final(self)@ == v
                        &&& final(draft)@ == old(draft)@
                        &&& final(prompts)@ == old(prompts)@
                        &&& *final(lanes) == *old(lanes)
                        &&& final(editor)@ == (if stop is Run {
                            emptied
                        } else {
                            old(editor)@
                        })
                    },
                    None => match blocked(v, *c) {
                        Some(stop) => step@ == stop && final(self)@ == v && final(draft)@ == old(
                            draft,
                        )@ && final(prompts)@ == old(prompts)@ && *final(lanes) == *old(lanes)
                            && final(editor)@ == old(editor)@,
                        None => match barred(v, s, old(draft)@.len(), *c) {
                            Some(stop) => step@ == stop && final(self)@ == v && final(draft)@
                                == old(draft)@ && final(prompts)@ == old(prompts)@
                                && *final(lanes) == *old(lanes) && final(editor)@ == old(editor)@,
                            None => {
                                let r = composed(s, old(draft)@, *c);
                                let admitted = old(lanes).admits(WorkKind::Submit);
                                &&& final(editor)@ == emptied
                                &&& final(draft)@.len() == 0
                                &&& final(prompts)@ == (match only_text(r.parts) {
                                    Some(t) => old(prompts)@.remembering(session@, t),
                                    None => old(prompts)@,
                                })
                                &&& final(self)@ == sending(v, r, false, admitted)
                                &&& step@ == (if admitted {
                                    StepView::Send {
                                        tag: old(lanes).tag(WorkKind::Submit),
                                        command: tries_command(r, false),
                                    }
                                } else {
                                    StepView::Refused(queue_busy())
                                })
                                &&& *final(lanes) == (if admitted {
                                    Lanes { tasks: (old(lanes).tasks + 1) as usize, ..*old(lanes) }
                                } else {
                                    *old(lanes)
                                })
                            },
                        },
                    },
                }
            }),
    {
        if let Some(step) = self.command_step(editor.text(), editor.cursor(), c) {
            let run: bool = matches!(step, Step::Run(_));
            if run {
                let _ = editor.take();
            }
            return step;
        }
        if let Some(step) = self.block_step(c) {
            return step;
        }
        if let Some(step) = self.bar_step(editor.text(), draft.len(), c) {
            return step;
        }
        let ghost v = self@;
        let message: String = match &c.identity {
            Ok(id) => id.clone(),
            Err(_) => String::new(),
        };
        let parts = draft.reference_input(editor.text());
        let request = Request { message, parts, steer: c.steer };
        let ghost r = request@;
        if let Some(t) = text_only(&request.parts) {
            prompts.remember(session, t.as_str());
        }
        self.request = Some(request);
        let _ = editor.take();
        *draft = References::new();
        proof {
            assert(self@ == SubmissionView { request: Some(r), ..v });
            assert(sending(self@, r, false, lanes.admits(WorkKind::Submit)) == sending(
                v,
                r,
                false,
                lanes.admits(WorkKind::Submit),
            ));
        }
        self.send(false, lanes)
    }

    /// Sends the input whose outcome is not known again, as it was.
    pub fn retry(&mut self, lanes: &mut Lanes, c: &Circumstances) -> (step: Step)
        ensures
            match blocked(old(self)@, *c) {
                Some(stop) => step@ == stop && final(self)@ == old(self)@ && *final(lanes) == *old(
                    lanes,
                ),
                None => match old(self)@.request {
                    None => step@ == StepView::NoSubmission && final(self)@ == old(self)@
                        && *final(lanes) == *old(lanes),
                    Some(r) => {
                        let admitted = old(lanes).admits(WorkKind::Submit);
                        &&& final(self)@ == sending(old(self)@, r, true, admitted)
                        &&& step@ == (if admitted {
                            StepView::Send {
                                tag: old(lanes).tag(WorkKind::Submit),
                                command: false,
                            }
                        } else {
                            StepView::Refused(queue_busy())
                        })
                        &&& *final(lanes) == (if admitted {
                            Lanes { tasks: (old(lanes).tasks + 1) as usize, ..*old(lanes) }
                        } else {
                            *old(lanes)
                        })
                    },
                },
            },
    {
        if let Some(step) = self.block_step(c) {
            return step;
        }
        if self.request.is_none() {
            return Step::NoSubmission;
        }
        self.send(true, lanes)
    }

    /// Takes in what came of an input that was sent.
    pub fn submitted(&mut self, result: Result<(), Failure>, editor: &mut Editor) -> (r: Answered)
        requires
            old(editor).wf(),
        ensures
            final(editor).wf(),
            match result {
                Ok(_) => {
                    &&& final(self)@ == accepted(old(self)@)
                    &&& final(editor)@ == old(editor)@
                    &&& r.notice is None
                    &&& r.durable
                    &&& r.cancel == old(self)@.cancel_when_accepted
                },
                Err(f) => {
                    &&& final(self)@ == refused(
                        old(self)@,
                        f.unknown,
                        old(editor)@.text.len() == 0,
                    )
                    &&& final(editor)@ == (if !f.unknown && old(editor)@.text.len() == 0 {
                        match old(self)@.request {
                            Some(q) => match first_text(q.parts) {
                                Some(s) => EditorView::over(s, MAX_TEXT as nat),
                                None => old(editor)@,
                            },
                            None => old(editor)@,
                        }
                    } else {
                        old(editor)@
                    })
                    &&& r.notice matches Some(n) && n@ == "Submission failed: "@ + f.problem@
                        + ". Input retained in the editor or Actions → Pending / rejected submission."@
                    &&& !r.durable
                    &&& !r.cancel
                },
            },
    {
        let ghost v = self@;
        self.busy = false;
        match result {
            Ok(_) => {
                let cancel: bool = self.cancel_when_accepted;
                self.request = None;
                self.cancel_when_accepted = false;
                Answered { notice: None, durable: true, cancel }
            },
            Err(f) => {
                self.rejected = !f.unknown;
                if !f.unknown {
                    if let Some(q) = &self.request {
                        let owned = remove_text(&self.owned, q.message.as_str());
                        self.owned = owned;
                    }
                    self.cancel_when_accepted = false;
                    if editor.text().is_empty() {
                        let mut taken: Option<Request> = None;
                        std::mem::swap(&mut taken, &mut self.request);
                        if let Some(q) = taken {
                            if q.parts.len() > 0 {
                                proof {
                                    assert(references::parts_of(q.parts@)[0] == q.parts@[0]@);
                                }
                                if let Part::Text(s) = &q.parts[0] {
                                    *editor = Editor::with_text(s.clone(), MAX_TEXT);
                                }
                            }
                        }
                    }
                }
                proof {
                    assert(self@ == refused(v, f.unknown, old(editor)@.text.len() == 0));
                }
                Answered {
                    notice: Some(
                        cat3(
                            "Submission failed: ",
                            f.problem.as_str(),
                            ". Input retained in the editor or Actions → Pending / rejected submission.",
                        ),
                    ),
                    durable: false,
                    cancel: false,
                }
            },
        }
    }

    /// Takes in that the input was run as a command. One that failed goes back to an empty editor.
    /// Says whether it fits there.
    pub fn command_finished(&mut self, ok: bool, editor: &mut Editor) -> (r: Result<
        (),
        &'static str,
    >)
        requires
            old(editor).wf(),
        ensures
            final(editor).wf(),
            final(self)@ == (SubmissionView {
                busy: false,
                request: None,
                rejected: false,
                owned: match old(self)@.request {
                    Some(q) => without_text(old(self)@.owned, q.message),
                    None => old(self)@.owned,
                },
                ..old(self)@
            }),
            match old(self)@.request {
                Some(q) => if !ok && old(editor)@.text.len() == 0 && only_text(q.parts) is Some {
                    editor::inserted(old(editor)@, only_text(q.parts)->0, r, final(editor)@)
                } else {
                    r is Ok && final(editor)@ == old(editor)@
                },
                None => r is Ok && final(editor)@ == old(editor)@,
            },
    {
        let mut r: Result<(), &'static str> = Ok(());
        self.busy = false;
        let mut taken: Option<Request> = None;
        std::mem::swap(&mut taken, &mut self.request);
        if let Some(q) = taken {
            let owned = remove_text(&self.owned, q.message.as_str());
            self.owned = owned;
            if !ok && editor.text().is_empty() {
                if let Some(s) = text_only(&q.parts) {
                    r = editor.insert(s.as_str());
                }
            }
        }
        self.rejected = false;
        r
    }

    /// Discards an input that was rejected. Says whether there was one.
    pub fn discard_rejected(&mut self) -> (r: bool)
        ensures
            r == old(self)@.rejected,
            final(self)@ == (if old(self)@.rejected {
                SubmissionView { request: None, rejected: false, ..old(self)@ }
            } else {
                old(self)@
            }),
    {
        if self.rejected {
            self.request = None;
            self.rejected = false;
            true
        } else {
            false
        }
    }

    /// Cancels what runs, and what is under way as soon as it is accepted. Says what to ask for.
    pub fn cancel(&mut self, lanes: &mut Lanes) -> (r: Option<Tag>)
        ensures
            final(self)@ == (SubmissionView {
                cancel_when_accepted: old(self)@.cancel_when_accepted || old(self)@.request is Some,
                ..old(self)@
            }),
            if old(lanes).cancelling {
                r is None && *final(lanes) == (Lanes { cancellation_queued: true, ..*old(lanes) })
            } else if old(lanes).admits(WorkKind::Cancel) {
                r == Some(old(lanes).tag(WorkKind::Cancel)) && *final(lanes) == (Lanes {
                    cancelling: true,
                    cancellation_queued: false,
                    tasks: (old(lanes).tasks + 1) as usize,
                    ..*old(lanes)
                })
            } else {
                r is None && *final(lanes) == (Lanes { cancellation_queued: true, ..*old(lanes) })
            },
    {
        lanes.cancellation_queued = true;
        if self.request.is_some() {
            self.cancel_when_accepted = true;
        }
        if lanes.cancelling {
            return None;
        }
        let tag = lanes.spawn(WorkKind::Cancel);
        lanes.cancelling = tag.is_some();
        lanes.cancellation_queued = !lanes.cancelling;
        tag
    }

    /// The inputs that are still pending, or are being submitted, of the first `n`.
    pub open spec fn still(v: SubmissionView, pending: Seq<Seq<char>>, n: int) -> Seq<Seq<char>>
        decreases n,
    {
        if n <= 0 {
            seq![]
        } else {
            let before = Submission::still(v, pending, n - 1);
            if pending.contains(v.owned[n - 1]) || (v.request matches Some(q) && q.message
                == v.owned[n - 1]) {
                before.push(v.owned[n - 1])
            } else {
                before
            }
        }
    }

    /// Forgets the inputs that are no longer pending.
    pub fn retain(&mut self, pending: &Vec<String>)
        ensures
            final(self)@ == (SubmissionView {
                owned: Submission::still(
                    old(self)@,
                    text::views(pending@),
                    old(self)@.owned.len() as int,
                ),
                ..old(self)@
            }),
    {
        let ghost v = self@;
        let ghost listed = text::views(pending@);
        let mut out: Vec<String> = Vec::new();
        let mut i: usize = 0;
        proof {
            assert(text::views(out@) =~= Seq::<Seq<char>>::empty());
        }
        while i < self.owned.len()
            invariant
                i <= self.owned@.len(),
                v == self@,
                listed == text::views(pending@),
                text::views(out@) == Submission::still(v, listed, i as int),
            decreases self.owned@.len() - i,
        {
            let ghost before = text::views(out@);
            proof {
                assert(v.owned[i as int] == self.owned@[i as int]@);
            }
            let current: bool = match &self.request {
                Some(q) => same(q.message.as_str(), self.owned[i].as_str()),
                None => false,
            };
            if contains(pending, self.owned[i].as_str()) || current {
                out.push(self.owned[i].clone());
                proof {
                    assert(text::views(out@) =~= before.push(v.owned[i as int]));
                }
            }
            i += 1;
        }
        self.owned = out;
    }

    /// Whether an input came from here.
    pub fn owns(&self, message: &str) -> (r: bool)
        ensures
            r == self@.owned.contains(message@),
    {
        contains(&self.owned, message)
    }

    /// Hands the pending inputs over to those of another conversation.
    pub fn swap_owned(&mut self, owned: Vec<String>) -> (r: Vec<String>)
        ensures
            text::views(r@) == old(self)@.owned,
            final(self)@ == (SubmissionView { owned: text::views(owned@), ..old(self)@ }),
    {
        let mut other = owned;
        std::mem::swap(&mut other, &mut self.owned);
        other
    }
}

/// An input that is sent again is the very same, with the same identity.
pub proof fn law_retry_is_the_same(v: SubmissionView, r: RequestView, admitted: bool)
    requires
        v.request == Some(r),
    ensures
        sending(v, r, true, admitted).request == Some(r),
        !tries_command(r, true),
{
}

/// An input whose outcome is unknown is kept, and no other can be submitted before it is resolved.
pub proof fn law_unknown_blocks(
    v: SubmissionView,
    s: Seq<char>,
    references: nat,
    c: Circumstances,
    editor_empty: bool,
)
    requires
        v.request is Some,
    ensures
        refused(v, true, editor_empty).request == v.request,
        refused(v, true, editor_empty).owned == v.owned,
        barred(refused(v, true, editor_empty), s, references, c) is Some,
        !(barred(refused(v, true, editor_empty), s, references, c)->0 is Send),
{
}

/// An input that was refused is never lost: it is kept to be sent again, or, where the editor is
/// empty, its text goes back there.
pub proof fn law_refused_is_kept(v: SubmissionView)
    requires
        v.request is Some,
    ensures
        refused(v, false, false).request == v.request,
        refused(v, false, false).rejected,
        !refused(v, false, false).owned.contains(v.request->0.message),
{
    lemma_without(v.owned, v.request->0.message);
}

proof fn lemma_without(v: Seq<Seq<char>>, s: Seq<char>)
    ensures
        !without_text(v, s).contains(s),
    decreases v.len(),
{
    if v.len() > 0 {
        lemma_without(v.drop_last(), s);
        let before = without_text(v.drop_last(), s);
        if v.last() != s {
            let w = before.push(v.last());
            assert forall|i: int| 0 <= i < w.len() implies w[i] != s by {
                if i < before.len() {
                    assert(w[i] == before[i]);
                    assert(before.contains(before[i]));
                }
            }
        }
    }
}


/// Adding a text keeps the order of a set of texts, and adds no other.
pub proof fn lemma_with_text(v: Seq<Seq<char>>, s: Seq<char>)
    requires
        ascending(v),
    ensures
        ascending(with_text(v, s)),
        forall|m: Seq<char>| #[trigger]
            with_text(v, s).contains(m) <==> v.contains(m) || m == s,
    decreases v.len(),
{
    let w = with_text(v, s);
    if v.len() == 0 {
        assert(w[0] == s);
    } else if v[0] == s {
    } else if text::before(s, v[0]) {
        assert forall|i: int, j: int| 0 <= i < j < w.len() implies text::before(
            #[trigger] w[i],
            #[trigger] w[j],
        ) by {
            if i == 0 {
                if j > 1 {
                    assert(text::before(v[0], v[j - 1]));
                    text::lemma_before_chain(s, v[0], v[j - 1]);
                }
            } else {
                assert(text::before(v[i - 1], v[j - 1]));
            }
        }
        assert forall|m: Seq<char>| #[trigger] w.contains(m) <==> v.contains(m) || m == s by {
            if v.contains(m) {
                let k = v.index_of(m);
                assert(w[k + 1] == m);
            }
            assert(w[0] == s);
        }
    } else {
        let tail = v.drop_first();
        let rest = with_text(tail, s);
        lemma_with_text(tail, s);
        text::lemma_before(s, v[0]);
        assert forall|i: int, j: int| 0 <= i < j < w.len() implies text::before(
            #[trigger] w[i],
            #[trigger] w[j],
        ) by {
            if i == 0 {
                assert(rest.contains(rest[j - 1]));
                if rest[j - 1] != s {
                    assert(tail.contains(rest[j - 1]));
                    let k = tail.index_of(rest[j - 1]);
                    assert(text::before(v[0], v[k + 1]));
                }
            } else {
                assert(text::before(rest[i - 1], rest[j - 1]));
            }
        }
        assert forall|m: Seq<char>| #[trigger] w.contains(m) <==> v.contains(m) || m == s by {
            assert(w[0] == v[0]);
            if rest.contains(m) {
                let k = rest.index_of(m);
                assert(w[k + 1] == m);
            }
            if tail.contains(m) {
                let k = tail.index_of(m);
                assert(v[k + 1] == m);
            }
            if v.contains(m) && m != v[0] {
                let k = v.index_of(m);
                assert(tail[k - 1] == m);
            }
            if w.contains(m) && m != v[0] {
                let k = w.index_of(m);
                assert(rest[k - 1] == m);
            }
        }
    }
}

/// Some of the texts of a set, in their order, stand in ascending order.
pub proof fn lemma_appended(v: Seq<Seq<char>>, kept: Seq<Seq<char>>, n: int)
    requires
        ascending(v),
        0 <= n < v.len(),
        ascending(kept),
        forall|m: Seq<char>| #[trigger] kept.contains(m) ==> v.take(n).contains(m),
    ensures
        ascending(kept.push(v[n])),
        forall|m: Seq<char>| #[trigger] kept.push(v[n]).contains(m) ==> v.take(n + 1).contains(m),
        forall|m: Seq<char>| #[trigger] kept.contains(m) ==> v.take(n + 1).contains(m),
{
    let w = kept.push(v[n]);
    let all = v.take(n + 1);
    assert forall|m: Seq<char>| #[trigger] v.take(n).contains(m) implies all.contains(m) by {
        let k = v.take(n).index_of(m);
        assert(all[k] == m);
    }
    assert(all[n] == v[n]);
    assert forall|i: int, j: int| 0 <= i < j < w.len() implies text::before(
        #[trigger] w[i],
        #[trigger] w[j],
    ) by {
        assert(w[i] == kept[i]);
        if j == kept.len() {
            assert(kept.contains(kept[i]));
            let k = v.take(n).index_of(kept[i]);
            assert(text::before(v[k], v[n]));
        } else {
            assert(text::before(kept[i], kept[j]));
        }
    }
    assert forall|m: Seq<char>| #[trigger] w.contains(m) implies all.contains(m) by {
        let k = w.index_of(m);
        if k < kept.len() {
            assert(kept[k] == m);
            assert(kept.contains(m));
        }
    }
}

proof fn lemma_without_ascending(v: Seq<Seq<char>>, s: Seq<char>, n: int)
    requires
        ascending(v),
        0 <= n <= v.len(),
    ensures
        ascending(without_text(v.take(n), s)),
        forall|m: Seq<char>| #[trigger]
            without_text(v.take(n), s).contains(m) ==> v.take(n).contains(m),
    decreases n,
{
    if n > 0 {
        lemma_without_ascending(v, s, n - 1);
        assert(v.take(n).drop_last() =~= v.take(n - 1));
        lemma_appended(v, without_text(v.take(n - 1), s), n - 1);
    }
}

proof fn lemma_still_ascending(v: SubmissionView, pending: Seq<Seq<char>>, n: int)
    requires
        ascending(v.owned),
        0 <= n <= v.owned.len(),
    ensures
        ascending(Submission::still(v, pending, n)),
        forall|m: Seq<char>| #[trigger]
            Submission::still(v, pending, n).contains(m) ==> v.owned.take(n).contains(m),
    decreases n,
{
    if n > 0 {
        lemma_still_ascending(v, pending, n - 1);
        lemma_appended(v.owned, Submission::still(v, pending, n - 1), n - 1);
    }
}

/// The inputs that came from here stand in ascending order, none of them twice, after whatever is
/// done with them; sending one adds it and no other.
pub proof fn law_owned_ascending(
    v: SubmissionView,
    r: RequestView,
    retry: bool,
    admitted: bool,
    unknown: bool,
    editor_empty: bool,
    pending: Seq<Seq<char>>,
)
    requires
        ascending(v.owned),
    ensures
        ascending(sending(v, r, retry, admitted).owned),
        forall|m: Seq<char>| #[trigger]
            sending(v, r, retry, admitted).owned.contains(m) <==> v.owned.contains(m) || m
                == r.message,
        ascending(accepted(v).owned),
        ascending(refused(v, unknown, editor_empty).owned),
        ascending(Submission::still(v, pending, v.owned.len() as int)),
{
    lemma_with_text(v.owned, r.message);
    assert(v.owned.take(v.owned.len() as int) =~= v.owned);
    lemma_still_ascending(v, pending, v.owned.len() as int);
    if let Some(q) = v.request {
        lemma_without_ascending(v.owned, q.message, v.owned.len() as int);
    }
}

/// With nothing unresolved, something to send, room for one more and a fresh identity, an input
/// for the running turn goes through exactly where a turn runs; one for the next turn always does.
pub proof fn law_steering_needs_a_turn(
    v: SubmissionView,
    s: Seq<char>,
    references: nat,
    c: Circumstances,
)
    requires
        v.request is None,
        !v.busy,
        c.unresolved is None,
        text::trimmed(s).len() > 0 || references > 0,
        v.owned.len() + c.elsewhere < 1024,
        c.identity is Ok,
        c.problem is None,
    ensures
        blocked(v, c) is None,
        c.steer ==> (barred(v, s, references, c) is None <==> c.active),
        !c.steer ==> barred(v, s, references, c) is None,
{
}

/// What goes through had nothing in its way: no other input is under way or unresolved, the text
/// is not blank unless something is attached, fewer than 1,024 inputs are pending, there is an
/// identity and its owner raises no problem.
pub proof fn law_nothing_goes_through_unchecked(
    v: SubmissionView,
    s: Seq<char>,
    references: nat,
    c: Circumstances,
)
    requires
        blocked(v, c) is None,
        barred(v, s, references, c) is None,
    ensures
        !v.busy,
        c.unresolved is None,
        v.request is None,
        references == 0 ==> exists|i: int| 0 <= i < s.len() && !text::blank(#[trigger] s[i]),
        c.steer ==> c.active,
        v.owned.len() + c.elsewhere < 1024,
        c.identity is Ok,
        c.problem is None,
{
    if references == 0 {
        text::lemma_trimmed_blank(s);
    }
}

/// Each obstacle is told in words of its own: a problem and a missing identity as they were
/// reported, and a blank text without a reference is passed over in silence.
pub proof fn law_obstacles(v: SubmissionView, s: Seq<char>, references: nat, c: Circumstances)
    requires
        v.request is None,
    ensures
        barred(v, s, references, c) == Some(StepView::Nothing) <==> references == 0
            && text::trimmed(s).len() == 0,
        text::trimmed(s).len() > 0 && !c.steer && v.owned.len() + c.elsewhere < 1024 ==> {
            &&& c.identity matches Err(p) ==> barred(v, s, references, c) == Some(
                StepView::Refused(p@),
            )
            &&& c.identity is Ok ==> (c.problem matches Some(p) ==> barred(v, s, references, c)
                == Some(StepView::Refused(p@)))
        },
        text::trimmed(s).len() > 0 && v.owned.len() + c.elsewhere >= 1024 ==> barred(
            v,
            s,
            references,
            c,
        ) is Some,
{
}

/// An input that is sent is the one request that is under way, and its identity is among those
/// that came from here. One that found no lane is kept as rejected, one that is sent again and
/// finds none stays what it was.
pub proof fn law_sending(v: SubmissionView, r: RequestView, retry: bool)
    requires
        ascending(v.owned),
    ensures
        sending(v, r, retry, true).busy,
        !sending(v, r, retry, true).rejected,
        !sending(v, r, retry, false).busy,
        sending(v, r, false, false).rejected,
        sending(v, r, true, false).rejected == v.rejected,
        forall|admitted: bool|
            {
                let w = #[trigger] sending(v, r, retry, admitted);
                &&& w.request == Some(r)
                &&& w.owned.contains(r.message)
                &&& w.cancel_when_accepted == v.cancel_when_accepted
            },
{
    lemma_with_text(v.owned, r.message);
    assert(forall|m: Seq<char>|
        with_text(v.owned, r.message).contains(m) <==> v.owned.contains(m) || m == r.message);
    assert(with_text(v.owned, r.message).contains(r.message));
}

/// Once an input is accepted nothing stands in the way of the next, and it still counts among the
/// inputs from here.
pub proof fn law_accepted_frees(v: SubmissionView)
    ensures
        accepted(v).request is None,
        !accepted(v).busy,
        !accepted(v).cancel_when_accepted,
        accepted(v).owned == v.owned,
{
}

/// An input that is refused for good leaves the inputs from here, all others of which stay; where
/// the editor is empty nothing stands in the way of the next.
pub proof fn law_refused_frees(v: SubmissionView, r: RequestView, m: Seq<char>)
    requires
        v.request == Some(r),
    ensures
        refused(v, false, true).request is None,
        !refused(v, false, true).busy,
        !refused(v, true, true).busy,
        !refused(v, true, true).rejected,
        !refused(v, true, false).rejected,
        refused(v, true, true).cancel_when_accepted == v.cancel_when_accepted,
        !refused(v, false, true).cancel_when_accepted,
        refused(v, false, true).owned.contains(m) <==> v.owned.contains(m) && m != r.message,
        refused(v, false, false).owned.contains(m) <==> v.owned.contains(m) && m != r.message,
{
    lemma_without_keeps(v.owned, r.message, m);
}

proof fn lemma_without_keeps(v: Seq<Seq<char>>, s: Seq<char>, m: Seq<char>)
    ensures
        without_text(v, s).contains(m) <==> v.contains(m) && m != s,
    decreases v.len(),
{
    lemma_without(v, s);
    if v.len() > 0 {
        let front = v.drop_last();
        let before = without_text(front, s);
        lemma_without_keeps(front, s, m);
        if front.contains(m) {
            assert(v[front.index_of(m)] == m);
        }
        if v.contains(m) && m != v.last() {
            assert(front[v.index_of(m)] == m);
        }
        if v.last() != s {
            let w = before.push(v.last());
            assert(w.last() == v.last());
            assert(w[w.len() - 1] == v.last());
            if before.contains(m) {
                assert(w[before.index_of(m)] == m);
            }
            if w.contains(m) && m != v.last() {
                assert(before[w.index_of(m)] == m);
            }
        }
        assert(v[v.len() - 1] == v.last());
    }
}

/// Of the inputs from here exactly those stay that are pending or are being submitted.
pub proof fn law_retained(v: SubmissionView, pending: Seq<Seq<char>>, m: Seq<char>)
    ensures
        Submission::still(v, pending, v.owned.len() as int).contains(m) <==> v.owned.contains(m)
            && (pending.contains(m) || (v.request is Some && v.request->0.message == m)),
{
    lemma_still_keeps(v, pending, v.owned.len() as int, m);
    assert(v.owned.take(v.owned.len() as int) =~= v.owned);
}

proof fn lemma_still_keeps(v: SubmissionView, pending: Seq<Seq<char>>, n: int, m: Seq<char>)
    requires
        0 <= n <= v.owned.len(),
    ensures
        Submission::still(v, pending, n).contains(m) <==> v.owned.take(n).contains(m) && (
        pending.contains(m) || (v.request is Some && v.request->0.message == m)),
    decreases n,
{
    if n > 0 {
        lemma_still_keeps(v, pending, n - 1, m);
        let before = Submission::still(v, pending, n - 1);
        let w = before.push(v.owned[n - 1]);
        let front = v.owned.take(n - 1);
        let all = v.owned.take(n);
        assert(all[n - 1] == v.owned[n - 1]);
        assert(w[w.len() - 1] == v.owned[n - 1]);
        if before.contains(m) {
            assert(w[before.index_of(m)] == m);
        }
        if w.contains(m) && m != v.owned[n - 1] {
            assert(before[w.index_of(m)] == m);
        }
        if front.contains(m) {
            assert(all[front.index_of(m)] == m);
        }
        if all.contains(m) && m != v.owned[n - 1] {
            assert(front[all.index_of(m)] == m);
        }
    }
}

/// A text alone, sent for the first time, is tried as a command of the conversation unless it is
/// to be taken as it stands; with something attached it never is.
pub proof fn law_tried_as_command(id: Seq<char>, s: Seq<char>, steer: bool, attached: Seq<PartView>)
    ensures
        tries_command(
            RequestView { message: id, parts: seq![PartView::Text(s)], steer },
            false,
        ) <==> !slash::literal_text(s),
        attached.len() > 0 ==> !tries_command(
            RequestView { message: id, parts: seq![PartView::Text(s)] + attached, steer },
            false,
        ),
{
}

/// The text of an input is what the editor gets back: the first part, or the only one.
pub proof fn law_text_of_input(s: Seq<char>, attached: Seq<references::ReferenceView>)
    requires
        s.len() > 0,
    ensures
        first_text(references::input_of(s, attached)) == Some(s),
        only_text(references::input_of(s, attached)) == (if attached.len() == 0 {
            Some(s)
        } else {
            None
        }),
        first_text(references::input_of(seq![], attached)) is None,
        only_text(references::input_of(seq![], attached)) is None,
{
}

/// A command of the application runs only where the cursor stands behind the whole text; the old
/// name of choosing a model never runs.
pub proof fn law_commands_run_at_the_end(s: Seq<char>, cursor: int, c: Circumstances)
    ensures
        commanded(s, cursor, c) matches Some(StepView::Run(_)) ==> cursor == text::size(s),
        commanded(s, cursor, c) matches Some(StepView::Run(command)) ==> !(command is Invalid)
            && setup::commanded(s, c.names_session) == Some(command),
        commanded(s, cursor, c) matches Some(step) ==> step is Run || step is Refused,
        !slash::literal_text(s) && text::words(s).len() > 0 && text::words(s)[0]
            == "/model-selection"@ ==> commanded(s, cursor, c) matches Some(StepView::Refused(_)),
{
}

/// What is sent carries the fresh identity, goes where it was meant to go, and holds the whole text
/// and then each reference in its place, and nothing else.
pub proof fn law_composed(
    s: Seq<char>,
    attached: Seq<references::ReferenceView>,
    id: String,
    c: Circumstances,
)
    requires
        c.identity == Ok::<String, String>(id),
    ensures
        composed(s, attached, c).message == id@,
        composed(s, attached, c).steer <==> c.steer,
        s.len() > 0 ==> {
            let parts = composed(s, attached, c).parts;
            &&& parts.len() == 1 + attached.len()
            &&& parts[0] == PartView::Text(s)
            &&& forall|i: int|
                0 <= i < attached.len() ==> parts[1 + i] == PartView::Reference(
                    (#[trigger] attached[i]).id,
                )
        },
        s.len() == 0 ==> {
            let parts = composed(s, attached, c).parts;
            &&& parts.len() == attached.len()
            &&& forall|i: int|
                0 <= i < attached.len() ==> parts[i] == PartView::Reference(
                    (#[trigger] attached[i]).id,
                )
        },
{
}

} // verus!
