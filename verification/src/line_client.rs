//! The client that reads its requests line by line.
use vstd::prelude::*;
use vstd::string::*;
use crate::answers;
use crate::identity;
use crate::identity::encode_hex;
use crate::number;
use crate::number::{parse_usize, parse_within};
use crate::pages;
use crate::pages::{decode_lossy, OutputPage};
use crate::stdin::SessionInput;
use crate::submission;
use crate::text;
use crate::text::{cat2, cat3, characters, collect, is_blank, same, split_words, starts_with, trim};

verus! {

/// What a line asks for.
#[derive(Debug)]
pub enum Line {
    Blank,
    /// A text that is submitted, or answers a question.
    Say(String),
    Exit,
    Sessions,
    Attach(String),
    /// What comes before a fact, or what follows what was read.
    History(Option<u64>),
    Status,
    Agents,
    Queue,
    Commands,
    CommandResult,
    Cancel(String),
    Approvals,
    /// A decision on the request of a conversation.
    Decide { allow: bool, subject: String, id: String },
    Questions,
    Answer(String),
    Output { id: String, offset: u64 },
    /// A text that is sent into the turn that runs.
    Steer(String),
    Help,
    /// A text where a number is expected.
    BadNumber(String),
    /// The line is not understood, for the reason that is told.
    Problem(String),
}

/// What a [`Line`] says.
pub enum LineView {
    Blank,
    Say(Seq<char>),
    Exit,
    Sessions,
    Attach(Seq<char>),
    History(Option<u64>),
    Status,
    Agents,
    Queue,
    Commands,
    CommandResult,
    Cancel(Seq<char>),
    Approvals,
    Decide { allow: bool, subject: Seq<char>, id: Seq<char> },
    Questions,
    Answer(Seq<char>),
    Output { id: Seq<char>, offset: u64 },
    Steer(Seq<char>),
    Help,
    BadNumber(Seq<char>),
    Problem(Seq<char>),
}

impl View for Line {
    type V = LineView;

    open spec fn view(&self) -> LineView {
        match self {
            Line::Blank => LineView::Blank,
            Line::Say(s) => LineView::Say(s@),
            Line::Exit => LineView::Exit,
            Line::Sessions => LineView::Sessions,
            Line::Attach(s) => LineView::Attach(s@),
            Line::History(n) => LineView::History(*n),
            Line::Status => LineView::Status,
            Line::Agents => LineView::Agents,
            Line::Queue => LineView::Queue,
            Line::Commands => LineView::Commands,
            Line::CommandResult => LineView::CommandResult,
            Line::Cancel(s) => LineView::Cancel(s@),
            Line::Approvals => LineView::Approvals,
            Line::Decide { allow, subject, id } => LineView::Decide {
                allow: *allow,
                subject: subject@,
                id: id@,
            },
            Line::Questions => LineView::Questions,
            Line::Answer(s) => LineView::Answer(s@),
            Line::Output { id, offset } => LineView::Output { id: id@, offset: *offset },
            Line::Steer(s) => LineView::Steer(s@),
            Line::Help => LineView::Help,
            Line::BadNumber(s) => LineView::BadNumber(s@),
            Line::Problem(s) => LineView::Problem(s@),
        }
    }
}

/// A text up to its first white space, and what follows that.
pub open spec fn cut_at(s: Seq<char>) -> Option<(Seq<char>, Seq<char>)> {
    let k = text::word(s) as int;
    if k >= s.len() {
        None
    } else {
        Some((s.take(k), s.skip(k + 1)))
    }
}

proof fn lemma_word_is(s: Seq<char>, k: int)
    requires
        0 <= k <= s.len(),
        forall|i: int| 0 <= i < k ==> !text::blank(#[trigger] s[i]),
        k == s.len() || text::blank(s[k]),
    ensures
        text::word(s) == k,
    decreases s.len(),
{
    if k > 0 {
        let t = s.drop_first();
        assert forall|i: int| 0 <= i < k - 1 implies !text::blank(#[trigger] t[i]) by {
            assert(t[i] == s[i + 1]);
        }
        if k < s.len() {
            assert(t[k - 1] == s[k]);
        }
        lemma_word_is(t, k - 1);
    }
}

fn cut(s: &str) -> (r: Option<(String, String)>)
    ensures
        match r {
            Some((a, b)) => cut_at(s@) == Some((a@, b@)),
            None => cut_at(s@) is None,
        },
{
    let chars = characters(s);
    let mut i: usize = 0;
    while i < chars.len() && !is_blank(chars[i])
        invariant
            i <= chars@.len(),
            chars@ == s@,
            forall|j: int| 0 <= j < i ==> !text::blank(#[trigger] chars@[j]),
        decreases chars@.len() - i,
    {
        i += 1;
    }
    proof {
        lemma_word_is(s@, i as int);
    }
    if i >= chars.len() {
        return None;
    }
    let a = collect(chars.as_slice(), 0, i);
    let b = collect(chars.as_slice(), i + 1, chars.len());
    proof {
        assert(a@ =~= s@.take(i as int));
        assert(b@ =~= s@.skip(i as int + 1));
    }
    Some((a, b))
}

/// What is told of a decision that is not understood.
pub open spec fn decide_usage() -> Seq<char> {
    "usage: :allow SESSION ID or :deny SESSION ID"@
}

/// What is told of an output that is not understood.
pub open spec fn output_usage() -> Seq<char> {
    "usage: :output ID [OFFSET]"@
}

/// What a decision asks for.
pub open spec fn decision(allow: bool, args: Seq<char>) -> LineView {
    match cut_at(args) {
        Some((subject, id)) => LineView::Decide { allow, subject, id: text::trimmed(id) },
        None => LineView::Problem(decide_usage()),
    }
}

fn decide(allow: bool, args: &str) -> (r: Line)
    ensures
        r@ == decision(allow, args@),
{
    match cut(args) {
        Some((subject, id)) => Line::Decide { allow, subject, id: trim(id.as_str()) },
        None => Line::Problem("usage: :allow SESSION ID or :deny SESSION ID".to_owned()),
    }
}

/// What an output asks for.
pub open spec fn output(args: Seq<char>) -> LineView {
    let parts = text::words(args);
    if parts.len() == 0 {
        LineView::Problem(output_usage())
    } else if parts.len() == 1 {
        LineView::Output { id: parts[0], offset: 0 }
    } else {
        match number::parsed_within(parts[1], u64::MAX as nat) {
            None => LineView::BadNumber(parts[1]),
            Some(n) => if parts.len() > 2 {
                LineView::Problem(output_usage())
            } else {
                LineView::Output { id: parts[0], offset: n as u64 }
            },
        }
    }
}

fn read_output(args: &str) -> (r: Line)
    ensures
        r@ == output(args@),
{
    let parts = split_words(args);
    proof {
        assert(text::views(parts@).len() == parts@.len());
        if parts@.len() > 0 {
            assert(text::words(args@)[0] == parts@[0]@);
        }
        if parts@.len() > 1 {
            assert(text::words(args@)[1] == parts@[1]@);
        }
    }
    if parts.len() == 0 {
        return Line::Problem("usage: :output ID [OFFSET]".to_owned());
    }
    if parts.len() == 1 {
        return Line::Output { id: parts[0].clone(), offset: 0 };
    }
    match parse_within(parts[1].as_str(), u64::MAX) {
        None => Line::BadNumber(parts[1].clone()),
        Some(n) => if parts.len() > 2 {
            Line::Problem("usage: :output ID [OFFSET]".to_owned())
        } else {
            Line::Output { id: parts[0].clone(), offset: n }
        },
    }
}

/// What a history asks for.
pub open spec fn history(args: Seq<char>) -> LineView {
    if args.len() == 0 {
        LineView::History(None)
    } else {
        match number::parsed_within(args, u64::MAX as nat) {
            Some(n) => LineView::History(Some(n as u64)),
            None => LineView::BadNumber(args),
        }
    }
}

fn read_history(args: &str) -> (r: Line)
    ensures
        r@ == history(args@),
{
    if args.is_empty() {
        return Line::History(None);
    }
    match parse_within(args, u64::MAX) {
        Some(n) => Line::History(Some(n)),
        None => Line::BadNumber(args.to_owned()),
    }
}

/// What a command asks for that takes no arguments.
pub open spec fn plain_command(name: Seq<char>) -> Option<LineView> {
    if name == "exit"@ {
        Some(LineView::Exit)
    } else if name == "sessions"@ {
        Some(LineView::Sessions)
    } else if name == "status"@ {
        Some(LineView::Status)
    } else if name == "agents"@ {
        Some(LineView::Agents)
    } else if name == "queue"@ {
        Some(LineView::Queue)
    } else if name == "commands"@ {
        Some(LineView::Commands)
    } else if name == "command-result"@ {
        Some(LineView::CommandResult)
    } else if name == "approvals"@ {
        Some(LineView::Approvals)
    } else if name == "questions"@ {
        Some(LineView::Questions)
    } else if name == "help"@ {
        Some(LineView::Help)
    } else {
        None
    }
}

fn read_plain(name: &str) -> (r: Option<Line>)
    ensures
        match r {
            Some(l) => plain_command(name@) == Some(l@),
            None => plain_command(name@) is None,
        },
{
    if same(name, "exit") {
        Some(Line::Exit)
    } else if same(name, "sessions") {
        Some(Line::Sessions)
    } else if same(name, "status") {
        Some(Line::Status)
    } else if same(name, "agents") {
        Some(Line::Agents)
    } else if same(name, "queue") {
        Some(Line::Queue)
    } else if same(name, "commands") {
        Some(Line::Commands)
    } else if same(name, "command-result") {
        Some(Line::CommandResult)
    } else if same(name, "approvals") {
        Some(Line::Approvals)
    } else if same(name, "questions") {
        Some(Line::Questions)
    } else if same(name, "help") {
        Some(Line::Help)
    } else {
        None
    }
}

/// What a command asks for.
pub open spec fn command(name: Seq<char>, args: Seq<char>) -> LineView {
    match plain_command(name) {
        Some(l) => l,
        None => if name == "attach"@ {
            LineView::Attach(args)
        } else if name == "history"@ {
            history(args)
        } else if name == "cancel"@ {
            LineView::Cancel(args)
        } else if name == "allow"@ {
            decision(true, args)
        } else if name == "deny"@ {
            decision(false, args)
        } else if name == "answer"@ {
            LineView::Answer(args)
        } else if name == "output"@ {
            output(args)
        } else if name == "steer"@ {
            if args.len() == 0 {
                LineView::Problem("usage: :steer TEXT"@)
            } else {
                LineView::Steer(args)
            }
        } else {
            LineView::Problem("unknown Session command: :"@ + name)
        },
    }
}

fn read_command(name: &str, args: &str) -> (r: Line)
    ensures
        r@ == command(name@, args@),
{
    if let Some(l) = read_plain(name) {
        return l;
    }
    if same(name, "attach") {
        Line::Attach(args.to_owned())
    } else if same(name, "history") {
        read_history(args)
    } else if same(name, "cancel") {
        Line::Cancel(args.to_owned())
    } else if same(name, "allow") {
        decide(true, args)
    } else if same(name, "deny") {
        decide(false, args)
    } else if same(name, "answer") {
        Line::Answer(args.to_owned())
    } else if same(name, "output") {
        read_output(args)
    } else if same(name, "steer") {
        if args.is_empty() {
            Line::Problem("usage: :steer TEXT".to_owned())
        } else {
            Line::Steer(args.to_owned())
        }
    } else {
        Line::Problem(cat2("unknown Session command: :", name))
    }
}

/// What a line asks for: a colon begins a command, two colons a text that begins with one.
pub open spec fn meaning(s: Seq<char>) -> LineView {
    if text::trimmed(s).len() == 0 {
        LineView::Blank
    } else if text::begins(s, "::"@) {
        LineView::Say(":"@ + s.skip(2))
    } else if text::begins(s, ":"@) {
        let body = s.skip(1);
        match cut_at(body) {
            Some((name, args)) => command(name, text::trimmed(args)),
            None => command(body, seq![]),
        }
    } else {
        LineView::Say(s)
    }
}

/// Reads a line.
pub fn read_line(s: &str) -> (r: Line)
    ensures
        r@ == meaning(s@),
{
    if trim(s).as_str().is_empty() {
        return Line::Blank;
    }
    let chars = characters(s);
    proof {
        reveal_strlit("::");
        reveal_strlit(":");
    }
    if starts_with(s, "::") {
        let rest = collect(chars.as_slice(), 2, chars.len());
        proof {
            assert(rest@ =~= s@.skip(2));
        }
        return Line::Say(cat2(":", rest.as_str()));
    }
    if starts_with(s, ":") {
        let body = collect(chars.as_slice(), 1, chars.len());
        proof {
            assert(body@ =~= s@.skip(1));
        }
        return match cut(body.as_str()) {
            Some((name, args)) => read_command(name.as_str(), trim(args.as_str()).as_str()),
            None => {
                proof {
                    reveal_strlit("");
                    assert(""@ =~= Seq::<char>::empty());
                }
                read_command(body.as_str(), "")
            },
        };
    }
    Line::Say(s.to_owned())
}

/// The answers to the questions of a request, so far.
#[derive(Debug)]
pub struct AnswerDraft {
    pub request: String,
    /// The options of each question.
    pub questions: Vec<Vec<String>>,
    pub answers: Vec<String>,
}

impl AnswerDraft {
    /// The question that is asked next, if there is one.
    pub fn prompt(&self) -> (r: Result<usize, &'static str>)
        ensures
            if self.answers@.len() < self.questions@.len() {
                r == Ok::<usize, &'static str>(self.answers.len())
            } else {
                r matches Err(e) && e@ == "answer draft has no unanswered question"@
            },
    {
        if self.answers.len() < self.questions.len() {
            Ok(self.answers.len())
        } else {
            Err("answer draft has no unanswered question")
        }
    }

    /// Takes a line as the answer to the next question.
    pub fn push(&mut self, line: &str) -> (r: Result<(), &'static str>)
        ensures
            final(self).request == old(self).request,
            final(self).questions == old(self).questions,
            ({
                let n = old(self).answers@.len() as int;
                let meant = answers::meant(text::views(old(self).questions@[n]@), line@);
                if n >= old(self).questions@.len() {
                    &&& r matches Err(e)
                    &&& e@ == "answer draft has no unanswered question"@
                    &&& final(self).answers == old(self).answers
                } else if text::trimmed(meant).len() == 0 {
                    &&& r matches Err(e)
                    &&& e@ == "answer must be nonempty"@
                    &&& final(self).answers == old(self).answers
                } else {
                    &&& r is Ok
                    &&& text::views(final(self).answers@) == text::views(old(self).answers@).push(
                        meant,
                    )
                }
            }),
    {
        if self.answers.len() >= self.questions.len() {
            return Err("answer draft has no unanswered question");
        }
        let at: usize = self.answers.len();
        let options = &self.questions[at];
        let mut answer: String = line.to_owned();
        if let Some(n) = parse_usize(trim(line).as_str()) {
            if n >= 1 && n <= options.len() {
                proof {
                    assert(text::views(options@)[n - 1] == options@[n - 1]@);
                }
                answer = options[n - 1].clone();
            }
        }
        if trim(answer.as_str()).as_str().is_empty() {
            return Err("answer must be nonempty");
        }
        let ghost before = text::views(self.answers@);
        let ghost given = answer@;
        self.answers.push(answer);
        proof {
            assert(text::views(self.answers@) =~= before.push(given));
        }
        Ok(())
    }
}

/// What the client does next.
#[derive(Debug)]
pub enum Todo {
    Nothing,
    Exit,
    /// There are no further conversations.
    NoSessions,
    /// Conversations are listed, from after the given one.
    ListSessions(Option<u64>),
    Attach(String),
    /// There is no earlier history.
    NoHistory,
    /// History is read back, from before the given fact.
    ReadHistory(Option<u64>),
    /// The owner of the conversation is asked as the line says.
    Ask(Line),
    /// The question at an index is asked.
    Prompt(usize),
    /// The answers are sent.
    SendAnswers(AnswerDraft),
    /// The text is submitted; with `prune` settled inputs are forgotten first.
    Submit { said: String, steer: bool, prune: bool },
    Problem(String),
    BadNumber(String),
}

/// What the client knows between two lines.
#[derive(Debug)]
pub struct LineState {
    /// Whether the conversation is kept.
    pub durable: bool,
    /// Where earlier history begins, and whether there is none.
    pub before: Option<u64>,
    pub history_exhausted: bool,
    /// The last conversation that was listed, and whether it was the last of all.
    pub recent: Option<u64>,
    pub recent_exhausted: bool,
    /// The identities of the inputs that came from here.
    pub owned: Vec<String>,
    pub draft: Option<AnswerDraft>,
}

/// What is done about an interruption.
#[derive(Clone, Copy, Debug, PartialEq, Eq, Structural)]
pub enum Interrupted {
    /// The answers were given up.
    AnswerAbandoned,
    /// What came from here is cancelled.
    CancelOwned,
    Nothing,
}

impl LineState {
    /// What is known at the start. Of a resumed conversation history was read back to `before`.
    /// Whether the inputs that came from here stand in ascending order, none of them twice.
    pub open spec fn ordered(self) -> bool {
        submission::ascending(text::views(self.owned@))
    }

    pub fn new(resumed: bool, before: Option<u64>) -> (r: LineState)
        ensures
            r.ordered(),
            r.durable == resumed,
            r.before == before,
            r.history_exhausted == (resumed && before is None),
            r.recent is None,
            !r.recent_exhausted,
            text::views(r.owned@) == Seq::<Seq<char>>::empty(),
            r.draft is None,
    {
        let r = LineState {
            durable: resumed,
            before,
            history_exhausted: resumed && before.is_none(),
            recent: None,
            recent_exhausted: false,
            owned: Vec::new(),
            draft: None,
        };
        proof {
            assert(text::views(r.owned@) =~= Seq::<Seq<char>>::empty());
        }
        r
    }

    /// Takes in a text that answers the next question.
    fn answer(&mut self, draft: AnswerDraft, said: &str) -> (r: Todo)
        requires
            old(self).draft is None,
        ensures
            final(self).durable == old(self).durable,
            final(self).before == old(self).before,
            final(self).history_exhausted == old(self).history_exhausted,
            final(self).recent == old(self).recent,
            final(self).recent_exhausted == old(self).recent_exhausted,
            final(self).owned == old(self).owned,
            answered(draft, said@, final(self).draft, r),
    {
        let ghost before = draft;
        let mut draft = draft;
        match draft.push(said) {
            Err(problem) => {
                self.draft = Some(draft);
                proof {
                    assert(draft == before);
                }
                Todo::Problem(problem.to_owned())
            },
            Ok(()) => {
                proof {
                    assert(text::views(draft.answers@).len() == draft.answers@.len());
                    assert(text::views(before.answers@).len() == before.answers@.len());
                }
                if draft.answers.len() == draft.questions.len() {
                    Todo::SendAnswers(draft)
                } else {
                    let at: usize = draft.answers.len();
                    self.draft = Some(draft);
                    Todo::Prompt(at)
                }
            },
        }
    }

    /// Takes in what a line asks for. `pending` says whether the outcome of a command is unknown.
    pub fn step(&mut self, line: Line, pending: bool) -> (r: Todo)
        ensures
            final(self).durable == old(self).durable,
            final(self).before == old(self).before,
            final(self).history_exhausted == old(self).history_exhausted,
            final(self).recent == old(self).recent,
            final(self).recent_exhausted == old(self).recent_exhausted,
            final(self).owned == old(self).owned,
            !(line is Say) ==> final(self).draft == old(self).draft,
            match line {
                Line::Blank => r is Nothing,
                Line::Exit => r is Exit,
                Line::Sessions => if old(self).recent_exhausted {
                    r is NoSessions
                } else {
                    r matches Todo::ListSessions(after) && after == old(self).recent
                },
                Line::Attach(id) => if pending {
                    r matches Todo::Problem(s) && s@
                        == "Resolve the pending command with :command-result before changing sessions"@
                } else {
                    r matches Todo::Attach(s) && s@ == id@
                },
                Line::History(at) => if at is None && old(self).history_exhausted {
                    r is NoHistory
                } else {
                    r matches Todo::ReadHistory(from) && from == (if at is None {
                        old(self).before
                    } else {
                        at
                    })
                },
                Line::Say(said) => match old(self).draft {
                    Some(draft) => answered(draft, said@, final(self).draft, r),
                    None => {
                        &&& final(self).draft is None
                        &&& r matches Todo::Submit { said: s, steer, prune }
                        &&& s@ == said@
                        &&& !steer
                        &&& prune == (old(self).owned@.len() > 0)
                    },
                },
                Line::Steer(said) => {
                    &&& r matches Todo::Submit { said: s, steer, prune }
                    &&& s@ == said@
                    &&& steer
                    &&& prune == (old(self).owned@.len() > 0)
                },
                Line::BadNumber(s) => r matches Todo::BadNumber(t) && t@ == s@,
                Line::Problem(s) => r matches Todo::Problem(t) && t@ == s@,
                _ => r matches Todo::Ask(l) && l@ == line@,
            },
    {
        match line {
            Line::Blank => Todo::Nothing,
            Line::Exit => Todo::Exit,
            Line::Sessions => if self.recent_exhausted {
                Todo::NoSessions
            } else {
                Todo::ListSessions(self.recent)
            },
            Line::Attach(id) => if pending {
                Todo::Problem(
                    "Resolve the pending command with :command-result before changing sessions".to_owned(),
                )
            } else {
                Todo::Attach(id)
            },
            Line::History(at) => if at.is_none() && self.history_exhausted {
                Todo::NoHistory
            } else if at.is_none() {
                Todo::ReadHistory(self.before)
            } else {
                Todo::ReadHistory(at)
            },
            Line::Say(said) => {
                let mut draft: Option<AnswerDraft> = None;
                std::mem::swap(&mut draft, &mut self.draft);
                match draft {
                    Some(draft) => self.answer(draft, said.as_str()),
                    None => Todo::Submit { said, steer: false, prune: self.owned.len() > 0 },
                }
            },
            Line::Steer(said) => Todo::Submit { said, steer: true, prune: self.owned.len() > 0 },
            Line::BadNumber(s) => Todo::BadNumber(s),
            Line::Problem(s) => Todo::Problem(s),
            other => Todo::Ask(other),
        }
    }

    /// Takes in that another conversation was attached, with history read back to `before`.
    pub fn attached(&mut self, before: Option<u64>)
        ensures
            final(self).durable,
            final(self).before == before,
            final(self).history_exhausted == (before is None),
            text::views(final(self).owned@) == Seq::<Seq<char>>::empty(),
            final(self).ordered(),
            final(self).draft is None,
            final(self).recent == old(self).recent,
            final(self).recent_exhausted == old(self).recent_exhausted,
    {
        self.durable = true;
        self.before = before;
        self.history_exhausted = before.is_none();
        self.owned = Vec::new();
        self.draft = None;
        proof {
            assert(text::views(self.owned@) =~= Seq::<Seq<char>>::empty());
        }
    }

    /// Takes in how far history was read back.
    pub fn history_read(&mut self, before: Option<u64>)
        ensures
            *final(self) == (LineState {
                before,
                history_exhausted: before is None,
                ..*old(self)
            }),
    {
        self.before = before;
        self.history_exhausted = before.is_none();
    }

    /// Takes in how far the conversations were listed.
    pub fn sessions_read(&mut self, recent: Option<u64>)
        ensures
            *final(self) == (LineState { recent, recent_exhausted: recent is None, ..*old(self) }),
    {
        self.recent = recent;
        self.recent_exhausted = recent.is_none();
    }

    /// Takes in that questions are answered.
    pub fn answering(&mut self, draft: AnswerDraft)
        ensures
            *final(self) == (LineState { draft: Some(draft), ..*old(self) }),
    {
        self.draft = Some(draft);
    }

    /// Takes in that an input was accepted.
    pub fn submitted(&mut self, id: String)
        ensures
            final(self).durable,
            text::views(final(self).owned@) == submission::with_text(
                text::views(old(self).owned@),
                id@,
            ),
            old(self).ordered() ==> final(self).ordered(),
            final(self).draft == old(self).draft,
            final(self).before == old(self).before,
            final(self).history_exhausted == old(self).history_exhausted,
            final(self).recent == old(self).recent,
            final(self).recent_exhausted == old(self).recent_exhausted,
    {
        self.durable = true;
        proof {
            if self.ordered() {
                submission::lemma_with_text(text::views(self.owned@), id@);
            }
        }
        submission::insert_text(&mut self.owned, id);
    }

    /// Forgets the inputs that nothing waits for any longer, by what is known of each in turn, and
    /// tells of the first whose state could not be read.
    pub fn prune(&mut self, known: Vec<Known>) -> (failure: Option<String>)
        requires
            known@.len() == old(self).owned@.len(),
        ensures
            text::views(final(self).owned@) == pruned(
                text::views(old(self).owned@),
                known@,
                known@.len() as int,
            ),
            old(self).ordered() ==> final(self).ordered(),
            match first_failed(known@) {
                Some(e) => failure matches Some(s) && s@ == e,
                None => failure is None,
            },
            final(self).durable == old(self).durable,
            final(self).draft == old(self).draft,
            final(self).before == old(self).before,
            final(self).history_exhausted == old(self).history_exhausted,
            final(self).recent == old(self).recent,
            final(self).recent_exhausted == old(self).recent_exhausted,
    {
        let ghost owned = text::views(self.owned@);
        let ghost told = known@;
        let mut rest = known;
        let mut pruning = Pruning::new();
        let mut i: usize = 0;
        proof {
            assert(told.take(0) =~= seq![]);
        }
        while i < self.owned.len()
            invariant
                i <= self.owned@.len(),
                owned == text::views(self.owned@),
                told.len() == owned.len(),
                rest@ == told.skip(i as int),
                *self == *old(self),
                text::views(pruning.kept@) == pruned(owned, told, i as int),
                pruning.kept_current == taken_before(told, i as int),
                match first_failed(told.take(i as int)) {
                    Some(e) => pruning.failure matches Some(s) && s@ == e,
                    None => pruning.failure is None,
                },
            decreases self.owned@.len() - i,
        {
            let ghost next = rest@[0];
            let known = rest.remove(0);
            proof {
                assert(next == told[i as int]);
                assert(owned[i as int] == self.owned@[i as int]@);
                assert(told.take(i as int + 1).drop_last() =~= told.take(i as int));
                assert(told.take(i as int + 1).last() == next);
                assert(rest@ =~= told.skip(i as int + 1));
            }
            pruning.looked(self.owned[i].as_str(), known);
            proof {
                if next == (Known::State { current: true }) {
                    assert(taken_before(told, i as int + 1));
                }
                assert forall|k: int|
                    0 <= k < i + 1 && #[trigger] told[k] == (Known::State {
                        current: true,
                    }) implies pruning.kept_current by {
                    if k < i {
                        assert(taken_before(told, i as int));
                    }
                }
                if taken_before(told, i as int) {
                    assert(taken_before(told, i as int + 1));
                }
            }
            i += 1;
        }
        proof {
            assert(told.take(i as int) =~= told);
            if self.ordered() {
                lemma_pruned_ascending(owned, told, i as int);
            }
        }
        self.owned = pruning.kept;
        pruning.failure
    }

    /// Takes in an interruption.
    pub fn interrupted(&mut self) -> (r: Interrupted)
        ensures
            r == (if old(self).draft is Some {
                Interrupted::AnswerAbandoned
            } else if old(self).durable {
                Interrupted::CancelOwned
            } else {
                Interrupted::Nothing
            }),
            *final(self) == (LineState { draft: None, ..*old(self) }),
    {
        if self.draft.is_some() {
            self.draft = None;
            Interrupted::AnswerAbandoned
        } else if self.durable {
            Interrupted::CancelOwned
        } else {
            Interrupted::Nothing
        }
    }
}

/// What comes of a text that answers the next question.
pub open spec fn answered(
    draft: AnswerDraft,
    said: Seq<char>,
    after: Option<AnswerDraft>,
    r: Todo,
) -> bool {
    let n = draft.answers@.len() as int;
    let meant = answers::meant(text::views(draft.questions@[n]@), said);
    if n >= draft.questions@.len() {
        &&& r matches Todo::Problem(s)
        &&& s@ == "answer draft has no unanswered question"@
        &&& after == Some(draft)
    } else if text::trimmed(meant).len() == 0 {
        &&& r matches Todo::Problem(s)
        &&& s@ == "answer must be nonempty"@
        &&& after == Some(draft)
    } else if n + 1 == draft.questions@.len() {
        &&& r matches Todo::SendAnswers(d)
        &&& d.request == draft.request
        &&& text::views(d.answers@) == text::views(draft.answers@).push(meant)
        &&& after is None
    } else {
        &&& r matches Todo::Prompt(at)
        &&& at == n + 1
        &&& after matches Some(d)
        &&& d.request == draft.request
        &&& d.questions == draft.questions
        &&& text::views(d.answers@) == text::views(draft.answers@).push(meant)
    }
}

/// Why an input cannot be submitted now.
pub fn check_submit(controller: bool, pending: Option<&str>) -> (r: Result<(), String>)
    ensures
        if !controller {
            r matches Err(s) && s@ == "Session controller is unavailable"@
        } else {
            match pending {
                Some(id) => r matches Err(s) && s@ == "Command "@ + id@
                    + " is unresolved; use :command-result"@,
                None => r is Ok,
            }
        },
{
    if !controller {
        return Err("Session controller is unavailable".to_owned());
    }
    match pending {
        Some(id) => Err(cat3("Command ", id, " is unresolved; use :command-result")),
        None => Ok(()),
    }
}

/// How far an input is.
#[derive(Debug)]
pub enum MessageState {
    Pending,
    /// The turn that took it.
    Claimed(String),
    Discarded,
}

/// Why the state of an input is not known.
#[derive(Debug)]
pub enum StatusError {
    NotFound,
    Failed(String),
}

/// What is cancelled.
#[derive(Debug)]
pub enum CancelTarget {
    Turn(String),
    Message(String),
}

/// What a [`CancelTarget`] says.
pub enum CancelView {
    Turn(Seq<char>),
    Message(Seq<char>),
}

impl View for CancelTarget {
    type V = CancelView;

    open spec fn view(&self) -> CancelView {
        match self {
            CancelTarget::Turn(s) => CancelView::Turn(s@),
            CancelTarget::Message(s) => CancelView::Message(s@),
        }
    }
}

/// What is cancelled where nothing is named.
pub fn active_target(active: Option<&str>) -> (r: Result<CancelTarget, &'static str>)
    ensures
        match active {
            Some(turn) => r matches Ok(t) && t@ == CancelView::Turn(turn@),
            None => r matches Err(e) && e@ == "no active Turn"@,
        },
{
    match active {
        Some(turn) => Ok(CancelTarget::Turn(turn.to_owned())),
        None => Err("no active Turn"),
    }
}

/// What is cancelled where something is named: the turn that took the input, the input itself, or
/// the turn of that name.
pub fn named_target(id: &str, status: Result<MessageState, StatusError>) -> (r: Result<
    CancelTarget,
    String,
>)
    ensures
        match status {
            Ok(MessageState::Claimed(turn)) => r matches Ok(t) && t@ == CancelView::Turn(turn@),
            Ok(_) => r matches Ok(t) && t@ == CancelView::Message(id@),
            Err(StatusError::NotFound) => r matches Ok(t) && t@ == CancelView::Turn(id@),
            Err(StatusError::Failed(e)) => r matches Err(f) && f@ == e@,
        },
{
    match status {
        Ok(MessageState::Claimed(turn)) => Ok(CancelTarget::Turn(turn)),
        Ok(MessageState::Pending) => Ok(CancelTarget::Message(id.to_owned())),
        Ok(MessageState::Discarded) => Ok(CancelTarget::Message(id.to_owned())),
        Err(StatusError::NotFound) => Ok(CancelTarget::Turn(id.to_owned())),
        Err(StatusError::Failed(e)) => Err(e),
    }
}

/// The reason that a cancellation gives: only turns are given one.
pub fn cancel_reason(target: &CancelTarget, interrupt: bool) -> (r: Option<&'static str>)
    ensures
        match target {
            CancelTarget::Turn(_) => r matches Some(s) && s@ == (if interrupt {
                "client interrupt"@
            } else {
                "explicit client cancellation"@
            }),
            CancelTarget::Message(_) => r is None,
        },
{
    match target {
        CancelTarget::Turn(_) => Some(
            if interrupt {
                "client interrupt"
            } else {
                "explicit client cancellation"
            },
        ),
        CancelTarget::Message(_) => None,
    }
}

/// What is told of a page of the output of a command that has ended.
#[derive(Debug)]
pub struct OutputTold {
    pub id: String,
    pub offset: u64,
    pub next_offset: u64,
    pub total_bytes: u64,
    /// The bytes as a text, with what is no text in them replaced.
    pub text: String,
    /// The bytes in hexadecimal.
    pub bytes_hex: String,
}

/// Tells of a page of output.
pub fn tell_output(p: &OutputPage) -> (r: OutputTold)
    ensures
        r.id@ == p.id@,
        r.offset == p.offset,
        r.next_offset == p.next_offset,
        r.total_bytes == p.total_bytes,
        r.text@ == pages::lossy_text(p.bytes@),
        r.bytes_hex@ == identity::hex_of(p.bytes@),
{
    OutputTold {
        id: p.id.clone(),
        offset: p.offset,
        next_offset: p.next_offset,
        total_bytes: p.total_bytes,
        text: decode_lossy(p.bytes.as_slice()),
        bytes_hex: encode_hex(p.bytes.as_slice()),
    }
}

/// The cancellation of all inputs that came from here. It goes on after a failure, and tells of
/// the first.
#[derive(Debug)]
pub struct Cancelling {
    /// The inputs that are still to be looked at, in their order.
    pub left: Vec<String>,
    pub failure: Option<String>,
}

/// The first failure.
pub open spec fn first_failure(before: Option<String>, next: Seq<char>) -> Seq<char> {
    match before {
        Some(s) => s@,
        None => next,
    }
}

impl Cancelling {
    pub fn new(owned: &Vec<String>) -> (r: Cancelling)
        ensures
            text::views(r.left@) == text::views(owned@),
            r.failure is None,
    {
        let mut left: Vec<String> = Vec::new();
        let mut i: usize = 0;
        while i < owned.len()
            invariant
                i <= owned@.len(),
                left@.len() == i,
                forall|k: int| 0 <= k < i ==> (#[trigger] left@[k])@ == owned@[k]@,
            decreases owned@.len() - i,
        {
            left.push(owned[i].clone());
            i += 1;
        }
        proof {
            assert(text::views(left@) =~= text::views(owned@));
        }
        Cancelling { left, failure: None }
    }

    /// The input that is looked at next: each of them once, in their order.
    pub fn next(&mut self) -> (r: Option<String>)
        ensures
            final(self).failure == old(self).failure,
            match r {
                Some(id) => old(self).left@.len() > 0 && id == old(self).left@[0]
                    && final(self).left@ == old(self).left@.skip(1),
                None => old(self).left@.len() == 0 && final(self).left@ == old(self).left@,
            },
    {
        if self.left.len() == 0 {
            return None;
        }
        let ghost before = self.left@;
        let id = self.left.remove(0);
        proof {
            assert(self.left@ =~= before.skip(1));
        }
        Some(id)
    }

    /// Takes in a failure.
    pub fn failed(&mut self, problem: String)
        ensures
            final(self).left@ == old(self).left@,
            final(self).failure matches Some(s) && s@ == first_failure(
                old(self).failure,
                problem@,
            ),
    {
        if self.failure.is_none() {
            self.failure = Some(problem);
        }
    }

    /// Takes in the state of an input, and says what is cancelled on its account.
    pub fn owned(&mut self, id: &str, status: Result<MessageState, StatusError>) -> (r: Option<
        CancelTarget,
    >)
        ensures
            final(self).left@ == old(self).left@,
            match status {
                Ok(MessageState::Pending) => r matches Some(t) && t@ == CancelView::Message(id@)
                    && *final(self) == *old(self),
                Ok(MessageState::Claimed(turn)) => r matches Some(t) && t@ == CancelView::Turn(
                    turn@,
                ) && *final(self) == *old(self),
                Ok(MessageState::Discarded) => r is None && *final(self) == *old(self),
                Err(StatusError::NotFound) => r is None && *final(self) == *old(self),
                Err(StatusError::Failed(e)) => r is None && (final(self).failure matches Some(s)
                    && s@ == first_failure(old(self).failure, e@)),
            },
    {
        match status {
            Ok(MessageState::Pending) => Some(CancelTarget::Message(id.to_owned())),
            Ok(MessageState::Claimed(turn)) => Some(CancelTarget::Turn(turn)),
            Ok(MessageState::Discarded) => None,
            Err(StatusError::NotFound) => None,
            Err(StatusError::Failed(e)) => {
                self.failed(e);
                None
            },
        }
    }
}

/// What is kept of the inputs that came from here: those that are pending, those whose state is not
/// known, and one that the running turn took.
#[derive(Debug)]
pub struct Pruning {
    pub kept: Vec<String>,
    pub kept_current: bool,
    pub failure: Option<String>,
}

/// What is known of an input.
#[derive(Debug)]
pub enum Known {
    /// It is pending, so that it is not asked about.
    Pending,
    /// Its state, and whether the running turn took it.
    State { current: bool },
    NotFound,
    Failed(String),
}

/// Whether one of the first `n` inputs is one that the running turn took.
pub open spec fn taken_before(known: Seq<Known>, n: int) -> bool {
    exists|i: int| 0 <= i < n && #[trigger] known[i] == (Known::State { current: true })
}

/// Whether an input is kept: one that the running turn took only where none before it was.
pub open spec fn kept_of(known: Seq<Known>, i: int) -> bool {
    match known[i] {
        Known::Pending => true,
        Known::State { current } => current && !taken_before(known, i),
        Known::NotFound => false,
        Known::Failed(_) => true,
    }
}

/// What is kept of the first `n` inputs.
pub open spec fn pruned(owned: Seq<Seq<char>>, known: Seq<Known>, n: int) -> Seq<Seq<char>>
    decreases n,
{
    if n <= 0 {
        seq![]
    } else if kept_of(known, n - 1) {
        pruned(owned, known, n - 1).push(owned[n - 1])
    } else {
        pruned(owned, known, n - 1)
    }
}

/// What the first failure said.
pub open spec fn first_failed(known: Seq<Known>) -> Option<Seq<char>>
    decreases known.len(),
{
    if known.len() == 0 {
        None
    } else {
        match first_failed(known.drop_last()) {
            Some(e) => Some(e),
            None => match known.last() {
                Known::Failed(e) => Some(e@),
                _ => None,
            },
        }
    }
}

proof fn lemma_pruned_ascending(owned: Seq<Seq<char>>, known: Seq<Known>, n: int)
    requires
        submission::ascending(owned),
        0 <= n <= owned.len(),
    ensures
        submission::ascending(pruned(owned, known, n)),
        forall|m: Seq<char>| #[trigger]
            pruned(owned, known, n).contains(m) ==> owned.take(n).contains(m),
    decreases n,
{
    if n > 0 {
        lemma_pruned_ascending(owned, known, n - 1);
        submission::lemma_appended(owned, pruned(owned, known, n - 1), n - 1);
    }
}

/// What is known of an input that is not pending, by its state and the running turn.
pub fn known_of(status: Result<MessageState, StatusError>, turn: Option<&str>) -> (r: Known)
    ensures
        match status {
            Ok(MessageState::Claimed(claimed)) => r == (Known::State {
                current: turn matches Some(t) && t@ == claimed@,
            }),
            Ok(_) => r == (Known::State { current: false }),
            Err(StatusError::NotFound) => r is NotFound,
            Err(StatusError::Failed(e)) => r == Known::Failed(e),
        },
{
    match status {
        Ok(MessageState::Claimed(claimed)) => Known::State {
            current: match turn {
                Some(t) => same(t, claimed.as_str()),
                None => false,
            },
        },
        Ok(_) => Known::State { current: false },
        Err(StatusError::NotFound) => Known::NotFound,
        Err(StatusError::Failed(e)) => Known::Failed(e),
    }
}

impl Pruning {
    pub fn new() -> (r: Pruning)
        ensures
            text::views(r.kept@) == Seq::<Seq<char>>::empty(),
            !r.kept_current,
            r.failure is None,
    {
        let r = Pruning { kept: Vec::new(), kept_current: false, failure: None };
        proof {
            assert(text::views(r.kept@) =~= Seq::<Seq<char>>::empty());
        }
        r
    }

    /// Whether an input is kept.
    pub open spec fn keeps(self, known: Known) -> bool {
        match known {
            Known::Pending => true,
            Known::State { current } => current && !self.kept_current,
            Known::NotFound => false,
            Known::Failed(_) => true,
        }
    }

    /// Takes in what is known of the next input.
    pub fn looked(&mut self, id: &str, known: Known)
        ensures
            text::views(final(self).kept@) == (if old(self).keeps(known) {
                text::views(old(self).kept@).push(id@)
            } else {
                text::views(old(self).kept@)
            }),
            final(self).kept_current == (old(self).kept_current || (known matches Known::State {
                current,
            } && current)),
            match known {
                Known::Failed(e) => final(self).failure matches Some(s) && s@ == first_failure(
                    old(self).failure,
                    e@,
                ),
                _ => final(self).failure == old(self).failure,
            },
    {
        let keep: bool = match &known {
            Known::Pending => true,
            Known::State { current } => *current && !self.kept_current,
            Known::NotFound => false,
            Known::Failed(_) => true,
        };
        if keep {
            let ghost before = text::views(self.kept@);
            self.kept.push(id.to_owned());
            proof {
                assert(text::views(self.kept@) =~= before.push(id@));
            }
        }
        match known {
            Known::State { current } => {
                if current {
                    self.kept_current = true;
                }
            },
            Known::Failed(e) => {
                if self.failure.is_none() {
                    self.failure = Some(e);
                }
            },
            _ => {},
        }
    }
}

/// The seconds' grace that what runs has after an interruption, in milliseconds.
pub const GRACE_MILLISECONDS: u64 = 1000;

/// What the wait for what runs comes to.
#[derive(Clone, Copy, Debug, PartialEq, Eq, Structural)]
pub enum Wait {
    /// It goes on.
    Goes,
    /// It goes on, and what runs is told of the interruption.
    Tell,
    /// It ends; `interrupted` says whether it was interrupted.
    Ends { interrupted: bool },
}

/// The wait for what runs, which an interruption ends after a while, and a second one at once.
#[derive(Clone, Copy, Debug, PartialEq, Eq, Structural)]
pub struct Interruptible {
    /// When the grace ends.
    pub grace: Option<u64>,
}

impl Interruptible {
    pub fn new() -> (r: Interruptible)
        ensures
            r.grace is None,
    {
        Interruptible { grace: None }
    }

    /// Takes in an interruption at a time in milliseconds.
    pub fn signal(&mut self, now: u64) -> (r: Wait)
        ensures
            if old(self).grace is Some {
                r == Wait::Ends { interrupted: true } && *final(self) == *old(self)
            } else {
                r is Tell && final(self).grace == Some(
                    if now + GRACE_MILLISECONDS > u64::MAX {
                        u64::MAX
                    } else {
                        (now + GRACE_MILLISECONDS) as u64
                    },
                )
            },
    {
        if self.grace.is_some() {
            return Wait::Ends { interrupted: true };
        }
        self.grace = Some(now.saturating_add(GRACE_MILLISECONDS));
        Wait::Tell
    }

    /// Takes in that what runs has dealt with the interruption.
    pub fn handled(&mut self)
        ensures
            final(self).grace is None,
    {
        self.grace = None;
    }

    /// Takes in that time has passed.
    pub fn tick(&self, now: u64) -> (r: Wait)
        ensures
            r == (match self.grace {
                Some(deadline) if now >= deadline => Wait::Ends { interrupted: true },
                _ => Wait::Goes,
            }),
    {
        match self.grace {
            Some(deadline) => if now >= deadline {
                Wait::Ends { interrupted: true }
            } else {
                Wait::Goes
            },
            None => Wait::Goes,
        }
    }

    /// Takes in that what runs has ended.
    pub fn finished(&self) -> (r: Wait)
        ensures
            r == (Wait::Ends { interrupted: self.grace is Some }),
    {
        Wait::Ends { interrupted: self.grace.is_some() }
    }
}

/// What the client ends with.
pub fn exit_code(interrupted: bool, failed: bool, render_failed: bool, cleanup_failed: bool) -> (r:
    u8)
    ensures
        r == (if interrupted {
            130u8
        } else if failed || render_failed || cleanup_failed {
            1u8
        } else {
            0u8
        }),
{
    if interrupted {
        130
    } else if failed || render_failed || cleanup_failed {
        1
    } else {
        0
    }
}

/// Where earlier history begins, if there is any.
pub fn next_before(has_more: bool, first: Option<u64>) -> (r: Result<Option<u64>, &'static str>)
    ensures
        if !has_more {
            r == Ok::<Option<u64>, &'static str>(None)
        } else {
            match first {
                Some(seq) => r == Ok::<Option<u64>, &'static str>(Some(seq)),
                None => r matches Err(e) && e@ == "history page made no progress"@,
            }
        },
{
    if !has_more {
        return Ok(None);
    }
    match first {
        Some(seq) => Ok(Some(seq)),
        None => Err("history page made no progress"),
    }
}

/// What is watched of a conversation.
#[derive(Clone, Copy, Debug, PartialEq, Eq, Structural)]
pub enum ObservationKind {
    Facts,
    Interactions,
    Projections,
}

/// What a lost watch is told as.
pub fn reconnecting_kind(kind: ObservationKind) -> (r: &'static str)
    ensures
        r@ == (if kind is Projections {
            "projection_reconnecting"@
        } else {
            "reconnecting"@
        }),
{
    match kind {
        ObservationKind::Projections => "projection_reconnecting",
        _ => "reconnecting",
    }
}

/// What a watch that has stopped is told as, and with what text. Only without facts is the
/// conversation gone.
pub fn stopped_told(kind: ObservationKind, problem: &str) -> (r: (&'static str, String, bool))
    ensures
        r.0@ == (if kind is Projections {
            "projection_stopped"@
        } else {
            "error"@
        }),
        r.1@ == (match kind {
            ObservationKind::Facts => "Session"@,
            ObservationKind::Interactions => "Interaction"@,
            ObservationKind::Projections => "Extension state"@,
        }) + " observation stopped; reattach to continue: "@ + problem@,
        r.2 == (kind is Facts),
{
    let name: &'static str = match kind {
        ObservationKind::Facts => "Session",
        ObservationKind::Interactions => "Interaction",
        ObservationKind::Projections => "Extension state",
    };
    let told: &'static str = match kind {
        ObservationKind::Projections => "projection_stopped",
        _ => "error",
    };
    (
        told,
        cat3(name, " observation stopped; reattach to continue: ", problem),
        matches!(kind, ObservationKind::Facts),
    )
}

/// A doubled colon gives a text that begins with a colon, whatever follows: such a text can always
/// be said, and is never a command.
pub proof fn law_escaped(s: Seq<char>)
    ensures
        meaning("::"@ + s) == LineView::Say(":"@ + s),
{
    reveal_strlit("::");
    let t = "::"@ + s;
    assert(t.take(2) =~= "::"@);
    assert(t.skip(2) =~= s);
    assert(text::begins(t, "::"@));
    assert(t[0] == ':');
    text::lemma_lead(t);
    assert(t.skip(0) =~= t);
    text::lemma_trail(t);
}

/// A text that does not begin with a colon is said as it is.
pub proof fn law_plain(s: Seq<char>)
    requires
        text::trimmed(s).len() > 0,
        s.len() > 0,
        s[0] != ':',
    ensures
        meaning(s) == LineView::Say(s),
{
    reveal_strlit("::");
    reveal_strlit(":");
    if text::begins(s, "::"@) {
        assert(s.take(2)[0] == "::"@[0]);
    }
    if text::begins(s, ":"@) {
        assert(s.take(1)[0] == ":"@[0]);
    }
}

/// The inputs are looked at from the smallest on: whichever is looked at next comes before all
/// that are left.
pub proof fn law_cancels_in_order(left: Seq<Seq<char>>)
    requires
        left.len() > 0,
        submission::ascending(left),
    ensures
        submission::ascending(left.skip(1)),
        forall|m: Seq<char>| #[trigger] left.skip(1).contains(m) ==> text::before(left[0], m),
{
    let rest = left.skip(1);
    assert forall|i: int, j: int| 0 <= i < j < rest.len() implies text::before(
        #[trigger] rest[i],
        #[trigger] rest[j],
    ) by {
        assert(text::before(left[i + 1], left[j + 1]));
    }
    assert forall|m: Seq<char>| #[trigger] rest.contains(m) implies text::before(left[0], m) by {
        let i = rest.index_of(m);
        assert(text::before(left[0], left[i + 1]));
    }
}

/// At most one input that the running turn took is kept, and every pending one is.
pub proof fn law_prunes(p: Pruning, known: Known)
    ensures
        known is Pending ==> p.keeps(known),
        known is NotFound ==> !p.keeps(known),
        (known matches Known::State { current } && (p.kept_current || !current)) ==> !p.keeps(known),
{
}

/// Of the inputs that the running turn took, the smallest is kept and no other.
pub proof fn law_prunes_to_the_smallest(owned: Seq<Seq<char>>, known: Seq<Known>, k: int, n: int)
    requires
        submission::ascending(owned),
        owned.len() == known.len(),
        0 <= k < n <= owned.len(),
        known[k] == (Known::State { current: true }),
    ensures
        pruned(owned, known, n).contains(owned[k]) <==> forall|j: int|
            0 <= j < k ==> #[trigger] known[j] != (Known::State { current: true }),
        !taken_before(known, k) ==> forall|j: int|
            0 <= j < n && j != k && #[trigger] known[j] == (Known::State { current: true })
                ==> text::before(owned[k], owned[j]) && !pruned(owned, known, n).contains(owned[j]),
{
    lemma_pruned_holds(owned, known, n, k);
    if !taken_before(known, k) {
        assert forall|j: int|
            0 <= j < n && j != k && #[trigger] known[j] == (Known::State {
                current: true,
            }) implies text::before(owned[k], owned[j]) && !pruned(owned, known, n).contains(
            owned[j],
        ) by {
            assert(j > k);
            assert(taken_before(known, j));
            lemma_pruned_holds(owned, known, n, j);
        }
    }
}

proof fn lemma_pruned_holds(owned: Seq<Seq<char>>, known: Seq<Known>, n: int, k: int)
    requires
        submission::ascending(owned),
        owned.len() == known.len(),
        0 <= k < owned.len(),
        0 <= n <= owned.len(),
    ensures
        pruned(owned, known, n).contains(owned[k]) <==> k < n && kept_of(known, k),
    decreases n,
{
    if n > 0 {
        lemma_pruned_holds(owned, known, n - 1, k);
        let rest = pruned(owned, known, n - 1);
        let w = rest.push(owned[n - 1]);
        if k != n - 1 {
            text::lemma_before(owned[k], owned[n - 1]);
            if k < n - 1 {
                assert(text::before(owned[k], owned[n - 1]));
            } else {
                assert(text::before(owned[n - 1], owned[k]));
            }
        } else {
            assert(w[rest.len() as int] == owned[k]);
        }
        if rest.contains(owned[k]) {
            let i = rest.index_of(owned[k]);
            assert(w[i] == owned[k]);
        }
        if w.contains(owned[k]) && k != n - 1 {
            let i = w.index_of(owned[k]);
            assert(rest[i] == owned[k]);
        }
    }
}

/// What can be typed.
pub const COMMANDS: &'static str = ":sessions :attach SESSION :history [BEFORE] :status :agents :queue :commands :command-result /NAME ARGUMENTS :steer TEXT :cancel [ID] :approvals :allow SESSION ID :deny SESSION ID :questions :answer ID :output ID [OFFSET] :exit ::TEXT";

/// What is told where the client ends because the person did not wait any longer.
pub const INTERRUPTED_TOLD: &'static str = "Service wait interrupted; dispatched mutations may still complete. Use the submitted identity for status lookup.";

/// What becomes of an input.
#[derive(Debug)]
pub enum Incoming {
    /// A line to read.
    Line(String),
    /// The client goes on, and an error is told.
    Skip(&'static str),
    /// The client ends.
    End,
    /// The client fails.
    Fail(String),
}

/// Takes an input: a line that is too long or no text is passed over.
pub fn take_input(input: SessionInput) -> (r: Incoming)
    ensures
        match input {
            SessionInput::Line(line) => r matches Incoming::Line(s) && s@ == line@,
            SessionInput::TooLarge => r matches Incoming::Skip(s) && s@
                == "input line exceeds its byte limit"@,
            SessionInput::InvalidUtf8 => r matches Incoming::Skip(s) && s@
                == "input line is not UTF-8"@,
            SessionInput::Error(problem) => r matches Incoming::Fail(s) && s@ == problem@,
            SessionInput::Eof => r is End,
        },
{
    match input {
        SessionInput::Line(line) => Incoming::Line(line),
        SessionInput::TooLarge => Incoming::Skip("input line exceeds its byte limit"),
        SessionInput::InvalidUtf8 => Incoming::Skip("input line is not UTF-8"),
        SessionInput::Error(problem) => Incoming::Fail(problem),
        SessionInput::Eof => Incoming::End,
    }
}

/// The first of the requests that has a name.
pub open spec fn named_at(v: Seq<Seq<char>>, id: Seq<char>) -> Option<int>
    decreases v.len(),
{
    if v.len() == 0 {
        None
    } else if v[0] == id {
        Some(0)
    } else {
        match named_at(v.drop_first(), id) {
            Some(i) => Some(i + 1),
            None => None,
        }
    }
}

/// Finds the questions that are to be answered among those that are asked.
pub fn find_question(asked: &Vec<String>, id: &str) -> (r: Result<usize, &'static str>)
    ensures
        match named_at(text::views(asked@), id@) {
            Some(i) => r matches Ok(n) && n == i,
            None => r matches Err(s) && s@ == "question is unavailable"@,
        },
{
    let ghost v = text::views(asked@);
    let mut i: usize = 0;
    proof {
        assert(v.skip(0) =~= v);
    }
    while i < asked.len()
        invariant
            i <= asked@.len(),
            v == text::views(asked@),
            named_at(v, id@) == (match named_at(v.skip(i as int), id@) {
                Some(k) => Some(k + i),
                None => None,
            }),
        decreases asked@.len() - i,
    {
        proof {
            assert(v.skip(i as int)[0] == asked@[i as int]@);
            assert(v.skip(i as int).drop_first() =~= v.skip(i as int + 1));
        }
        if same(asked[i].as_str(), id) {
            return Ok(i);
        }
        i += 1;
    }
    Err("question is unavailable")
}

proof fn lemma_command_line(name: Seq<char>, args: Seq<char>)
    requires
        text::one_word(name),
        name[0] != ':',
    ensures
        meaning(":"@ + name + " "@ + args) == command(name, text::trimmed(args)),
        meaning(":"@ + name) == command(name, seq![]),
{
    reveal_strlit("::");
    reveal_strlit(":");
    reveal_strlit(" ");
    let s = ":"@ + name + " "@ + args;
    let n = name.len() as int;
    assert(!text::blank(s[0]));
    text::lemma_trimmed_blank(s);
    if text::begins(s, "::"@) {
        assert(s.take(2)[1] == "::"@[1]);
        assert(s[1] == name[0]);
    }
    assert(s.take(1) =~= ":"@);
    let body = s.skip(1);
    assert(body =~= name + " "@ + args);
    assert forall|i: int| 0 <= i < n implies !text::blank(#[trigger] body[i]) by {
        assert(body[i] == name[i]);
    }
    assert(body[n] == ' ');
    lemma_word_is(body, n);
    assert(body.take(n) =~= name);
    assert(body.skip(n + 1) =~= args);
    let t = ":"@ + name;
    assert(!text::blank(t[0]));
    text::lemma_trimmed_blank(t);
    if text::begins(t, "::"@) {
        assert(t.take(2)[1] == "::"@[1]);
        assert(t[1] == name[0]);
    }
    assert(t.take(1) =~= ":"@);
    assert(t.skip(1) =~= name);
    lemma_word_is(name, n);
}

proof fn lemma_names()
    ensures
        text::one_word("exit"@) && "exit"@[0] == 'e',
        text::one_word("sessions"@) && "sessions"@[0] == 's',
        text::one_word("status"@) && "status"@[0] == 's',
        text::one_word("agents"@) && "agents"@[0] == 'a',
        text::one_word("queue"@) && "queue"@[0] == 'q',
        text::one_word("commands"@) && "commands"@[0] == 'c',
        text::one_word("command-result"@) && "command-result"@[0] == 'c',
        text::one_word("approvals"@) && "approvals"@[0] == 'a',
        text::one_word("questions"@) && "questions"@[0] == 'q',
        text::one_word("help"@) && "help"@[0] == 'h',
        text::one_word("attach"@) && "attach"@[0] == 'a',
        text::one_word("history"@) && "history"@[0] == 'h',
        text::one_word("cancel"@) && "cancel"@[0] == 'c',
        text::one_word("allow"@) && "allow"@[0] == 'a',
        text::one_word("deny"@) && "deny"@[0] == 'd',
        text::one_word("answer"@) && "answer"@[0] == 'a',
        text::one_word("output"@) && "output"@[0] == 'o',
        text::one_word("steer"@) && "steer"@[0] == 's',
{
    reveal_strlit("exit");
    reveal_strlit("sessions");
    reveal_strlit("status");
    reveal_strlit("agents");
    reveal_strlit("queue");
    reveal_strlit("commands");
    reveal_strlit("command-result");
    reveal_strlit("approvals");
    reveal_strlit("questions");
    reveal_strlit("help");
    reveal_strlit("attach");
    reveal_strlit("history");
    reveal_strlit("cancel");
    reveal_strlit("allow");
    reveal_strlit("deny");
    reveal_strlit("answer");
    reveal_strlit("output");
    reveal_strlit("steer");
}

/// `:deny` and `:allow` with the same conversation and request differ in the decision alone: the
/// first refuses and the second permits, both for that conversation and that request. Without a
/// request neither decides anything.
pub proof fn law_decisions(subject: Seq<char>, id: Seq<char>)
    requires
        text::one_word(subject),
    ensures
        text::trimmed(id).len() > 0 ==> {
            &&& meaning(":deny "@ + subject + " "@ + id) == (LineView::Decide {
                allow: false,
                subject,
                id: text::trimmed(id),
            })
            &&& meaning(":allow "@ + subject + " "@ + id) == (LineView::Decide {
                allow: true,
                subject,
                id: text::trimmed(id),
            })
        },
        text::trimmed(id).len() == 0 ==> {
            &&& meaning(":deny "@ + subject + " "@ + id) is Problem
            &&& meaning(":allow "@ + subject + " "@ + id) is Problem
        },
{
    let rest = subject + " "@ + id;
    let n = subject.len() as int;
    reveal_strlit(":deny ");
    reveal_strlit(":allow ");
    reveal_strlit(":");
    reveal_strlit(" ");
    reveal_strlit("exit");
    reveal_strlit("sessions");
    reveal_strlit("status");
    reveal_strlit("agents");
    reveal_strlit("queue");
    reveal_strlit("commands");
    reveal_strlit("command-result");
    reveal_strlit("approvals");
    reveal_strlit("questions");
    reveal_strlit("help");
    reveal_strlit("attach");
    reveal_strlit("history");
    reveal_strlit("cancel");
    reveal_strlit("allow");
    reveal_strlit("deny");
    lemma_names();
    assert(":deny "@ + subject + " "@ + id =~= ":"@ + "deny"@ + " "@ + rest);
    assert(":allow "@ + subject + " "@ + id =~= ":"@ + "allow"@ + " "@ + rest);
    lemma_command_line("deny"@, rest);
    lemma_command_line("allow"@, rest);
    let (from, to) = text::law_trimmed(id);
    assert(rest[0] == subject[0]);
    if from < to {
        let end = n + 1 + to;
        assert forall|i: int| end <= i < rest.len() implies text::blank(#[trigger] rest[i]) by {
            assert(rest[i] == id[i - n - 1]);
        }
        assert(rest[end - 1] == id[to - 1]);
        text::lemma_trimmed_is(rest, 0, end);
        let args = text::trimmed(rest);
        assert forall|i: int| 0 <= i < n implies !text::blank(#[trigger] args[i]) by {
            assert(args[i] == subject[i]);
        }
        assert(args[n] == ' ');
        lemma_word_is(args, n);
        assert(args.take(n) =~= subject);
        let tail = args.skip(n + 1);
        assert(tail =~= id.take(to));
        text::lemma_trimmed_is(tail, from, to);
        assert(tail.subrange(from, to) =~= id.subrange(from, to));
        assert(id.subrange(from, to).len() > 0);
    } else {
        assert forall|i: int| n <= i < rest.len() implies text::blank(#[trigger] rest[i]) by {
            if i > n {
                assert(rest[i] == id[i - n - 1]);
            }
        }
        assert(rest[n - 1] == subject[n - 1]);
        text::lemma_trimmed_is(rest, 0, n);
        assert(rest.subrange(0, n) =~= subject);
        lemma_word_is(subject, n);
    }
}

/// The commands that take an argument, each of which asks for its own thing, with the argument
/// without the white space around it.
pub proof fn law_commands_with_argument(args: Seq<char>)
    ensures
        meaning(":attach "@ + args) == LineView::Attach(text::trimmed(args)),
        meaning(":cancel "@ + args) == LineView::Cancel(text::trimmed(args)),
        meaning(":answer "@ + args) == LineView::Answer(text::trimmed(args)),
        text::trimmed(args).len() > 0 ==> meaning(":steer "@ + args) == LineView::Steer(
            text::trimmed(args),
        ),
        text::trimmed(args).len() == 0 ==> meaning(":steer "@ + args) is Problem,
        text::trimmed(args).len() == 0 ==> meaning(":history "@ + args) == LineView::History(None),
        text::trimmed(args).len() > 0 ==> meaning(":history "@ + args) == (
        match number::parsed_within(text::trimmed(args), 0xffff_ffff_ffff_ffff) {
            Some(n) => LineView::History(Some(n as u64)),
            None => LineView::BadNumber(text::trimmed(args)),
        }),
        meaning(":cancel"@) == LineView::Cancel(seq![]),
        meaning(":history"@) == LineView::History(None),
        meaning(":steer"@) is Problem,
{
    reveal_strlit(":");
    reveal_strlit(" ");
    reveal_strlit("exit");
    reveal_strlit("sessions");
    reveal_strlit("status");
    reveal_strlit("agents");
    reveal_strlit("queue");
    reveal_strlit("commands");
    reveal_strlit("command-result");
    reveal_strlit("approvals");
    reveal_strlit("questions");
    reveal_strlit("help");
    reveal_strlit("attach");
    reveal_strlit("history");
    reveal_strlit("cancel");
    reveal_strlit("allow");
    reveal_strlit("deny");
    reveal_strlit("answer");
    reveal_strlit("output");
    reveal_strlit("steer");
    reveal_strlit(":attach ");
    reveal_strlit(":cancel ");
    reveal_strlit(":answer ");
    reveal_strlit(":steer ");
    reveal_strlit(":history ");
    reveal_strlit(":cancel");
    reveal_strlit(":history");
    reveal_strlit(":steer");
    lemma_names();
    assert(":attach "@ + args =~= ":"@ + "attach"@ + " "@ + args);
    assert(":cancel "@ + args =~= ":"@ + "cancel"@ + " "@ + args);
    assert(":answer "@ + args =~= ":"@ + "answer"@ + " "@ + args);
    assert(":steer "@ + args =~= ":"@ + "steer"@ + " "@ + args);
    assert(":history "@ + args =~= ":"@ + "history"@ + " "@ + args);
    assert(":cancel"@ =~= ":"@ + "cancel"@);
    assert(":history"@ =~= ":"@ + "history"@);
    assert(":steer"@ =~= ":"@ + "steer"@);
    lemma_command_line("attach"@, args);
    lemma_command_line("cancel"@, args);
    lemma_command_line("answer"@, args);
    lemma_command_line("steer"@, args);
    lemma_command_line("history"@, args);
}

/// `:output` takes an identifier and, if one is given, the offset from which it is read, which is
/// otherwise the start.
pub proof fn law_output_command(id: Seq<char>, offset: Seq<char>)
    requires
        text::one_word(id),
        text::one_word(offset),
    ensures
        meaning(":output "@ + id) == (LineView::Output { id, offset: 0 }),
        meaning(":output "@ + id + " "@ + offset) == (match number::parsed_within(
            offset,
            0xffff_ffff_ffff_ffff,
        ) {
            Some(n) => LineView::Output { id, offset: n as u64 },
            None => LineView::BadNumber(offset),
        }),
        meaning(":output"@) is Problem,
{
    reveal_strlit(":");
    reveal_strlit(" ");
    reveal_strlit("exit");
    reveal_strlit("sessions");
    reveal_strlit("status");
    reveal_strlit("agents");
    reveal_strlit("queue");
    reveal_strlit("commands");
    reveal_strlit("command-result");
    reveal_strlit("approvals");
    reveal_strlit("questions");
    reveal_strlit("help");
    reveal_strlit("attach");
    reveal_strlit("history");
    reveal_strlit("cancel");
    reveal_strlit("allow");
    reveal_strlit("deny");
    reveal_strlit("answer");
    reveal_strlit("output");
    reveal_strlit(":output ");
    reveal_strlit(":output");
    lemma_names();
    assert(":output "@ + id =~= ":"@ + "output"@ + " "@ + id);
    assert(":output "@ + id + " "@ + offset =~= ":"@ + "output"@ + " "@ + (id + " "@ + offset));
    assert(":output"@ =~= ":"@ + "output"@);
    lemma_command_line("output"@, id);
    let both = id + " "@ + offset;
    lemma_command_line("output"@, both);
    text::lemma_trimmed_is(id, 0, id.len() as int);
    assert(id.subrange(0, id.len() as int) =~= id);
    assert(both[0] == id[0]);
    assert(both[both.len() - 1] == offset[offset.len() - 1]);
    text::lemma_trimmed_is(both, 0, both.len() as int);
    assert(both.subrange(0, both.len() as int) =~= both);
    let one = seq![id];
    let two = seq![id, offset];
    assert(one[0] == id);
    text::lemma_words_joined(one);
    assert(text::joined(one) =~= id);
    assert(two[0] == id && two[1] == offset);
    text::lemma_words_joined(two);
    assert(two.drop_first() =~= seq![offset]);
    assert(text::joined(seq![offset]) =~= offset);
    assert(text::joined(two) =~= both);
    let none = Seq::<char>::empty();
    assert(text::words(none) =~= seq![]);
}

proof fn lemma_plain_names()
    ensures
        plain_command("exit"@) == Some(LineView::Exit),
        plain_command("sessions"@) == Some(LineView::Sessions),
        plain_command("status"@) == Some(LineView::Status),
        plain_command("agents"@) == Some(LineView::Agents),
        plain_command("queue"@) == Some(LineView::Queue),
        plain_command("commands"@) == Some(LineView::Commands),
        plain_command("command-result"@) == Some(LineView::CommandResult),
        plain_command("approvals"@) == Some(LineView::Approvals),
        plain_command("questions"@) == Some(LineView::Questions),
        plain_command("help"@) == Some(LineView::Help),
{
    assert(plain_command("exit"@) == Some(LineView::Exit)) by {
        reveal_strlit("exit");
    }
    assert(plain_command("sessions"@) == Some(LineView::Sessions)) by {
        reveal_strlit("exit");
        reveal_strlit("sessions");
        assert("exit"@.len() != "sessions"@.len());
    }
    assert(plain_command("status"@) == Some(LineView::Status)) by {
        reveal_strlit("exit");
        reveal_strlit("sessions");
        reveal_strlit("status");
        assert("exit"@.len() != "status"@.len());
        assert("sessions"@.len() != "status"@.len());
    }
    assert(plain_command("agents"@) == Some(LineView::Agents)) by {
        reveal_strlit("exit");
        reveal_strlit("sessions");
        reveal_strlit("status");
        reveal_strlit("agents");
        assert("exit"@.len() != "agents"@.len());
        assert("sessions"@.len() != "agents"@.len());
        assert("status"@[0] != "agents"@[0]);
    }
    assert(plain_command("queue"@) == Some(LineView::Queue)) by {
        reveal_strlit("exit");
        reveal_strlit("sessions");
        reveal_strlit("status");
        reveal_strlit("agents");
        reveal_strlit("queue");
        assert("exit"@.len() != "queue"@.len());
        assert("sessions"@.len() != "queue"@.len());
        assert("status"@.len() != "queue"@.len());
        assert("agents"@.len() != "queue"@.len());
    }
    assert(plain_command("commands"@) == Some(LineView::Commands)) by {
        reveal_strlit("exit");
        reveal_strlit("sessions");
        reveal_strlit("status");
        reveal_strlit("agents");
        reveal_strlit("queue");
        reveal_strlit("commands");
        assert("exit"@.len() != "commands"@.len());
        assert("sessions"@[0] != "commands"@[0]);
        assert("status"@.len() != "commands"@.len());
        assert("agents"@.len() != "commands"@.len());
        assert("queue"@.len() != "commands"@.len());
    }
    assert(plain_command("command-result"@) == Some(LineView::CommandResult)) by {
        reveal_strlit("exit");
        reveal_strlit("sessions");
        reveal_strlit("status");
        reveal_strlit("agents");
        reveal_strlit("queue");
        reveal_strlit("commands");
        reveal_strlit("command-result");
        assert("exit"@.len() != "command-result"@.len());
        assert("sessions"@.len() != "command-result"@.len());
        assert("status"@.len() != "command-result"@.len());
        assert("agents"@.len() != "command-result"@.len());
        assert("queue"@.len() != "command-result"@.len());
        assert("commands"@.len() != "command-result"@.len());
    }
    assert(plain_command("approvals"@) == Some(LineView::Approvals)) by {
        reveal_strlit("exit");
        reveal_strlit("sessions");
        reveal_strlit("status");
        reveal_strlit("agents");
        reveal_strlit("queue");
        reveal_strlit("commands");
        reveal_strlit("command-result");
        reveal_strlit("approvals");
        assert("exit"@.len() != "approvals"@.len());
        assert("sessions"@.len() != "approvals"@.len());
        assert("status"@.len() != "approvals"@.len());
        assert("agents"@.len() != "approvals"@.len());
        assert("queue"@.len() != "approvals"@.len());
        assert("commands"@.len() != "approvals"@.len());
        assert("command-result"@.len() != "approvals"@.len());
    }
    assert(plain_command("questions"@) == Some(LineView::Questions)) by {
        reveal_strlit("exit");
        reveal_strlit("sessions");
        reveal_strlit("status");
        reveal_strlit("agents");
        reveal_strlit("queue");
        reveal_strlit("commands");
        reveal_strlit("command-result");
        reveal_strlit("approvals");
        reveal_strlit("questions");
        assert("exit"@.len() != "questions"@.len());
        assert("sessions"@.len() != "questions"@.len());
        assert("status"@.len() != "questions"@.len());
        assert("agents"@.len() != "questions"@.len());
        assert("queue"@.len() != "questions"@.len());
        assert("commands"@.len() != "questions"@.len());
        assert("command-result"@.len() != "questions"@.len());
        assert("approvals"@[0] != "questions"@[0]);
    }
    assert(plain_command("help"@) == Some(LineView::Help)) by {
        reveal_strlit("exit");
        reveal_strlit("sessions");
        reveal_strlit("status");
        reveal_strlit("agents");
        reveal_strlit("queue");
        reveal_strlit("commands");
        reveal_strlit("command-result");
        reveal_strlit("approvals");
        reveal_strlit("questions");
        reveal_strlit("help");
        assert("exit"@[0] != "help"@[0]);
        assert("sessions"@.len() != "help"@.len());
        assert("status"@.len() != "help"@.len());
        assert("agents"@.len() != "help"@.len());
        assert("queue"@.len() != "help"@.len());
        assert("commands"@.len() != "help"@.len());
        assert("command-result"@.len() != "help"@.len());
        assert("approvals"@.len() != "help"@.len());
        assert("questions"@.len() != "help"@.len());
    }
}

proof fn lemma_plain_line(name: Seq<char>, args: Seq<char>, meant: LineView)
    requires
        text::one_word(name),
        name[0] != ':',
        plain_command(name) == Some(meant),
    ensures
        meaning(":"@ + name) == meant,
        meaning(":"@ + name + " "@ + args) == meant,
{
    lemma_command_line(name, args);
}

/// The commands that take no argument, each of which asks for its own thing, whatever follows it.
pub proof fn law_plain_commands(args: Seq<char>)
    ensures
        meaning(":"@ + "exit"@) is Exit,
        meaning(":"@ + "exit"@ + " "@ + args) is Exit,
        meaning(":"@ + "sessions"@) is Sessions,
        meaning(":"@ + "sessions"@ + " "@ + args) is Sessions,
        meaning(":"@ + "status"@) is Status,
        meaning(":"@ + "status"@ + " "@ + args) is Status,
        meaning(":"@ + "agents"@) is Agents,
        meaning(":"@ + "agents"@ + " "@ + args) is Agents,
        meaning(":"@ + "queue"@) is Queue,
        meaning(":"@ + "queue"@ + " "@ + args) is Queue,
        meaning(":"@ + "commands"@) is Commands,
        meaning(":"@ + "commands"@ + " "@ + args) is Commands,
        meaning(":"@ + "command-result"@) is CommandResult,
        meaning(":"@ + "command-result"@ + " "@ + args) is CommandResult,
        meaning(":"@ + "approvals"@) is Approvals,
        meaning(":"@ + "approvals"@ + " "@ + args) is Approvals,
        meaning(":"@ + "questions"@) is Questions,
        meaning(":"@ + "questions"@ + " "@ + args) is Questions,
        meaning(":"@ + "help"@) is Help,
        meaning(":"@ + "help"@ + " "@ + args) is Help,
{
    lemma_names();
    lemma_plain_names();
    lemma_plain_line("exit"@, args, LineView::Exit);
    lemma_plain_line("sessions"@, args, LineView::Sessions);
    lemma_plain_line("status"@, args, LineView::Status);
    lemma_plain_line("agents"@, args, LineView::Agents);
    lemma_plain_line("queue"@, args, LineView::Queue);
    lemma_plain_line("commands"@, args, LineView::Commands);
    lemma_plain_line("command-result"@, args, LineView::CommandResult);
    lemma_plain_line("approvals"@, args, LineView::Approvals);
    lemma_plain_line("questions"@, args, LineView::Questions);
    lemma_plain_line("help"@, args, LineView::Help);
}

/// A command of another name is not understood, and is told by its name.
pub proof fn law_unknown_command(name: Seq<char>, args: Seq<char>)
    requires
        text::one_word(name),
        name[0] != ':',
        name != "exit"@ && name != "sessions"@ && name != "status"@ && name != "agents"@ && name
            != "queue"@ && name != "commands"@ && name != "command-result"@ && name != "approvals"@
            && name != "questions"@ && name != "help"@ && name != "attach"@ && name != "history"@
            && name != "cancel"@ && name != "allow"@ && name != "deny"@ && name != "answer"@ && name
            != "output"@ && name != "steer"@,
    ensures
        meaning(":"@ + name + " "@ + args) == LineView::Problem(
            "unknown Session command: :"@ + name,
        ),
{
    lemma_command_line(name, args);
}

/// The question that is found is the first of that name, and none is found only where none has it.
pub proof fn law_named_at(v: Seq<Seq<char>>, id: Seq<char>)
    ensures
        match named_at(v, id) {
            Some(i) => 0 <= i < v.len() && v[i] == id && forall|j: int| 0 <= j < i ==> v[j] != id,
            None => !v.contains(id),
        },
    decreases v.len(),
{
    if v.len() > 0 {
        let t = v.drop_first();
        law_named_at(t, id);
        if v[0] != id {
            match named_at(t, id) {
                Some(i) => {
                    assert(v[i + 1] == t[i]);
                    assert forall|j: int| 0 <= j < i + 1 implies v[j] != id by {
                        if j > 0 {
                            assert(v[j] == t[j - 1]);
                        }
                    }
                },
                None => {
                    assert forall|j: int| 0 <= j < v.len() implies v[j] != id by {
                        if j > 0 {
                            assert(v[j] == t[j - 1]);
                            assert(t.contains(t[j - 1]));
                        }
                    }
                },
            }
        }
    }
}

/// What is told of requests that failed is what the first of them said, and nothing is told where
/// none did.
pub proof fn law_first_failed(known: Seq<Known>)
    ensures
        first_failed(known) is None <==> forall|i: int|
            0 <= i < known.len() ==> !((#[trigger] known[i]) is Failed),
        first_failed(known) matches Some(e) ==> exists|i: int|
            0 <= i < known.len() && (#[trigger] known[i]) is Failed && known[i]->Failed_0@ == e
                && forall|j: int| 0 <= j < i ==> !((#[trigger] known[j]) is Failed),
    decreases known.len(),
{
    if known.len() > 0 {
        let t = known.drop_last();
        law_first_failed(t);
        assert(forall|i: int| 0 <= i < t.len() ==> #[trigger] known[i] == t[i]);
        assert(forall|i: int| 0 <= i < t.len() ==> known[i] == #[trigger] t[i]);
        assert(known.last() == known[known.len() - 1]);
    }
}

} // verus!
