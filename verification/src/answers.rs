//! Answering the questions that a conversation asks.
use vstd::prelude::*;
use vstd::string::*;
use crate::editor::{Editor, EditorView};
use crate::dispatch::BUSY_TASKS;
use crate::journal;
use crate::keys::KeyEvent;
use crate::number;
use crate::number::parse_usize;
use crate::text;
use crate::text::{byte_len, trim};

verus! {

/// What is answered, and what was answered so far.
#[derive(Debug)]
pub struct Answer {
    /// What the owner knows the questions by.
    request: u64,
    /// The options of each question.
    questions: Vec<Vec<String>>,
    answers: Vec<String>,
    editor: Editor,
    scroll: usize,
}

/// What an [`Answer`] says.
#[verifier::ext_equal]
pub struct AnswerView {
    pub request: u64,
    pub questions: Seq<Seq<Seq<char>>>,
    pub answers: Seq<Seq<char>>,
    pub editor: EditorView,
    pub scroll: usize,
}

pub open spec fn questions_of(v: Seq<Vec<String>>) -> Seq<Seq<Seq<char>>> {
    Seq::new(v.len(), |i: int| text::views(v[i]@))
}

impl View for Answer {
    type V = AnswerView;

    closed spec fn view(&self) -> AnswerView {
        AnswerView {
            request: self.request,
            questions: questions_of(self.questions@),
            answers: text::views(self.answers@),
            editor: self.editor@,
            scroll: self.scroll,
        }
    }
}

/// What a text answers a question with options: the number of an option stands for it.
pub open spec fn meant(options: Seq<Seq<char>>, raw: Seq<char>) -> Seq<char> {
    match number::parsed_within(text::trimmed(raw), usize::MAX as nat) {
        Some(n) => if 1 <= n <= options.len() {
            options[n - 1]
        } else {
            raw
        },
        None => raw,
    }
}

fn meaning(options: &Vec<String>, raw: &str) -> (r: String)
    ensures
        r@ == meant(text::views(options@), raw@),
{
    let trimmed = trim(raw);
    if let Some(n) = parse_usize(trimmed.as_str()) {
        if n >= 1 && n <= options.len() {
            proof {
                assert(text::views(options@)[n - 1] == options@[n - 1]@);
            }
            return options[n - 1].clone();
        }
    }
    raw.to_owned()
}

/// The bytes of some texts.
pub open spec fn total(v: Seq<Seq<char>>) -> int
    decreases v.len(),
{
    if v.len() == 0 {
        0
    } else {
        total(v.drop_last()) + text::size(v.last())
    }
}

/// What comes of giving an answer.
#[derive(Clone, Copy, Debug, PartialEq, Eq, Structural)]
pub enum Given {
    /// Too much is under way; the draft stays.
    Busy,
    /// The questions are no longer asked.
    Withdrawn,
    /// Nothing was written.
    Nothing,
    /// The next question follows.
    Next,
    /// Every question was answered.
    Complete,
}

/// What is said when an answer cannot be given now.
pub fn given_notice(g: Given) -> (r: Option<&'static str>)
    ensures
        match g {
            Given::Busy => r matches Some(s) && s@
                == "Client requests are busy; answer draft retained"@,
            Given::Withdrawn => r matches Some(s) && s@
                == "Question was settled or withdrawn; answer was not sent"@,
            _ => r is None,
        },
{
    match g {
        Given::Busy => Some("Client requests are busy; answer draft retained"),
        Given::Withdrawn => Some("Question was settled or withdrawn; answer was not sent"),
        _ => None,
    }
}

/// What comes of giving an answer.
pub open spec fn giving(v: AnswerView, tasks: int, live: bool) -> Given {
    if tasks >= BUSY_TASKS {
        Given::Busy
    } else if !live {
        Given::Withdrawn
    } else if text::trimmed(meant(v.questions[v.answers.len() as int], v.editor.text)).len() == 0 {
        Given::Nothing
    } else if v.answers.len() + 1 == v.questions.len() {
        Given::Complete
    } else {
        Given::Next
    }
}

/// The answers with one more.
pub open spec fn answered(v: AnswerView) -> AnswerView {
    AnswerView {
        answers: v.answers.push(meant(v.questions[v.answers.len() as int], v.editor.text)),
        scroll: 0,
        editor: EditorView {
            text: seq![],
            cursor: 0,
            history: journal::History::empty(),
            ..v.editor
        },
        ..v
    }
}

impl Answer {
    /// The editor is well formed.
    pub closed spec fn wf(&self) -> bool {
        self.editor.wf()
    }

    /// Begins to answer.
    pub fn new(request: u64, questions: Vec<Vec<String>>) -> (r: Answer)
        ensures
            r.wf(),
            r@ == (AnswerView {
                request,
                questions: questions_of(questions@),
                answers: seq![],
                editor: EditorView::blank(),
                scroll: 0,
            }),
    {
        let r = Answer {
            request,
            questions,
            answers: Vec::new(),
            editor: Editor::default(),
            scroll: 0,
        };
        proof {
            assert(text::views(r.answers@) =~= Seq::<Seq<char>>::empty());
        }
        r
    }

    pub fn request(&self) -> (r: u64)
        ensures
            r == self@.request,
    {
        self.request
    }

    pub fn editor(&self) -> (r: &Editor)
        requires
            self.wf(),
        ensures
            r.wf(),
            r@ == self@.editor,
    {
        &self.editor
    }

    /// Inserts a text where the answer is written.
    pub fn insert(&mut self, value: &str) -> (r: Result<(), &'static str>)
        requires
            old(self).wf(),
        ensures
            final(self).wf(),
            crate::editor::inserted(old(self)@.editor, value@, r, final(self)@.editor),
            final(self)@ == (AnswerView { editor: final(self)@.editor, ..old(self)@ }),
    {
        self.editor.insert(value)
    }

    /// Acts on a key where the answer is written.
    pub fn key(&mut self, key: KeyEvent) -> (r: Result<(), &'static str>)
        requires
            old(self).wf(),
        ensures
            final(self).wf(),
            crate::editor::pressed(old(self)@.editor, key, r, final(self)@.editor),
            final(self)@ == (AnswerView { editor: final(self)@.editor, ..old(self)@ }),
    {
        self.editor.key(key)
    }

    /// The answers so far.
    pub fn answers(&self) -> (r: &Vec<String>)
        ensures
            text::views(r@) == self@.answers,
    {
        &self.answers
    }

    /// Leaves the answer that is written the bytes that the others leave of `maximum`.
    pub fn limit(&mut self, maximum: usize)
        requires
            old(self).wf(),
        ensures
            final(self).wf(),
            final(self)@ == (AnswerView {
                editor: EditorView {
                    limit: if total(old(self)@.answers) >= maximum {
                        0
                    } else {
                        (maximum - total(old(self)@.answers)) as nat
                    },
                    ..old(self)@.editor
                },
                ..old(self)@
            }),
    {
        let ghost v = self@;
        let ghost all = text::views(self.answers@);
        let mut left: usize = maximum;
        let mut i: usize = 0;
        proof {
            assert(all.take(0) =~= Seq::<Seq<char>>::empty());
        }
        while i < self.answers.len()
            invariant
                i <= self.answers@.len(),
                all == text::views(self.answers@),
                self@ == v,
                self.wf(),
                0 <= total(all.take(i as int)),
                left == (if total(all.take(i as int)) >= maximum {
                    0
                } else {
                    maximum - total(all.take(i as int))
                }),
            decreases self.answers@.len() - i,
        {
            proof {
                assert(all.take(i as int + 1).drop_last() =~= all.take(i as int));
                assert(all.take(i as int + 1).last() == self.answers@[i as int]@);
            }
            left = left.saturating_sub(byte_len(self.answers[i].as_str()));
            i += 1;
        }
        proof {
            assert(all.take(i as int) =~= all);
        }
        self.editor.set_limit(left);
    }

    /// Gives what is written as the answer to the next question. Where every question was
    /// answered, `settle` follows.
    pub fn give(&mut self, tasks: usize, live: bool) -> (r: Given)
        requires
            old(self).wf(),
            old(self)@.answers.len() < old(self)@.questions.len(),
        ensures
            final(self).wf(),
            r == giving(old(self)@, tasks as int, live),
            final(self)@ == (if r is Next || r is Complete {
                answered(old(self)@)
            } else {
                old(self)@
            }),
    {
        if tasks >= BUSY_TASKS {
            return Given::Busy;
        }
        if !live {
            return Given::Withdrawn;
        }
        let ghost v = self@;
        let at: usize = self.answers.len();
        proof {
            assert(v.questions[at as int] == text::views(self.questions@[at as int]@));
        }
        let s = meaning(&self.questions[at], self.editor.text());
        let ghost given = s@;
        if trim(s.as_str()).as_str().is_empty() {
            return Given::Nothing;
        }
        let ghost before = text::views(self.answers@);
        self.answers.push(s);
        proof {
            assert(text::views(self.answers@) =~= before.push(given));
        }
        self.scroll = 0;
        let _ = self.editor.take();
        if self.answers.len() == self.questions.len() {
            Given::Complete
        } else {
            Given::Next
        }
    }

    /// Settles the answers. Where their owner has a problem with them the last is taken back; says
    /// whether they are sent.
    pub fn settle(&mut self, problem: bool) -> (send: bool)
        requires
            old(self).wf(),
            old(self)@.answers.len() == old(self)@.questions.len(),
            old(self)@.answers.len() > 0,
        ensures
            final(self).wf(),
            send == !problem,
            final(self)@ == (AnswerView {
                answers: if problem {
                    old(self)@.answers.drop_last()
                } else {
                    old(self)@.answers
                },
                ..old(self)@
            }),
    {
        if problem {
            let ghost before = text::views(self.answers@);
            let _ = self.answers.pop();
            proof {
                assert(text::views(self.answers@) =~= before.drop_last());
            }
        }
        !problem
    }

    /// Scrolls by three lines, down to `maximum` at most.
    pub fn scroll(&mut self, up: bool, maximum: usize)
        requires
            old(self).wf(),
        ensures
            final(self).wf(),
            final(self)@ == (AnswerView {
                scroll: scrolled(old(self)@.scroll, up, maximum),
                ..old(self)@
            }),
    {
        self.scroll = scroll_by(self.scroll, up, maximum);
    }
}

/// Three lines up, or down to `maximum` at most.
pub open spec fn scrolled(at: usize, up: bool, maximum: usize) -> usize {
    if up {
        if at >= 3 {
            (at - 3) as usize
        } else {
            0
        }
    } else if at + 3 <= maximum {
        (at + 3) as usize
    } else {
        maximum
    }
}

/// Three lines up, or down to `maximum` at most.
pub fn scroll_by(at: usize, up: bool, maximum: usize) -> (r: usize)
    ensures
        r == scrolled(at, up, maximum),
{
    if up {
        at.saturating_sub(3)
    } else {
        let next: usize = at.saturating_add(3);
        if next <= maximum {
            next
        } else {
            maximum
        }
    }
}

/// Says whether the dialog of an answer is closed because its questions are no longer asked.
pub fn is_settled(asked: &Vec<u64>, request: u64) -> (r: bool)
    ensures
        r == !asked@.contains(request),
{
    let mut i: usize = 0;
    while i < asked.len()
        invariant
            i <= asked@.len(),
            forall|j: int| 0 <= j < i ==> asked@[j] != request,
        decreases asked@.len() - i,
    {
        if asked[i] == request {
            return false;
        }
        i += 1;
    }
    true
}

/// No question is answered twice, and none is passed over: each answer that is taken answers the
/// first question without one.
pub proof fn law_in_order(v: AnswerView, tasks: int, live: bool)
    requires
        v.answers.len() < v.questions.len(),
        giving(v, tasks, live) is Next || giving(v, tasks, live) is Complete,
    ensures
        answered(v).answers.len() == v.answers.len() + 1,
        answered(v).answers.drop_last() == v.answers,
        answered(v).answers.last() == meant(v.questions[v.answers.len() as int], v.editor.text),
        giving(v, tasks, live) is Complete <==> answered(v).answers.len() == v.questions.len(),
{
    assert(answered(v).answers.drop_last() =~= v.answers);
}

/// What is told once an owner has been given an answer or a decision: nothing where it took it.
pub fn answered_told(question: bool, accepted: bool) -> (r: &'static str)
    ensures
        r@ == (if accepted {
            ""@
        } else if question {
            "Question is no longer live; reopen questions"@
        } else {
            "Approval is no longer live; reopen approvals"@
        }),
{
    if accepted {
        ""
    } else if question {
        "Question is no longer live; reopen questions"
    } else {
        "Approval is no longer live; reopen approvals"
    }
}

/// What is told where the dialog of an answer closes because its questions are no longer asked.
pub fn settled_told(asked: &Vec<u64>, open: Option<u64>) -> (r: Option<&'static str>)
    ensures
        match open {
            Some(request) => if asked@.contains(request) {
                r is None
            } else {
                r matches Some(s) && s@ == "Question settled or withdrawn; answer draft closed"@
            },
            None => r is None,
        },
{
    match open {
        Some(request) => if is_settled(asked, request) {
            Some("Question settled or withdrawn; answer draft closed")
        } else {
            None
        },
        None => None,
    }
}

/// The number of an option, counted from one, stands for the option; any other text stands for
/// itself.
pub proof fn law_meant(options: Seq<Seq<char>>, raw: Seq<char>, n: nat)
    ensures
        number::parsed_within(text::trimmed(raw), usize::MAX as nat) == Some(n) && 1 <= n
            <= options.len() ==> meant(options, raw) == options[n - 1],
        number::parsed_within(text::trimmed(raw), usize::MAX as nat) == Some(n) && (n == 0 || n
            > options.len()) ==> meant(options, raw) == raw,
        number::parsed_within(text::trimmed(raw), usize::MAX as nat) is None ==> meant(options, raw)
            == raw,
{
}

/// An answer counts where fewer than eight requests are under way, the question is still live and
/// the answer is not blank; the last one completes the answers.
pub proof fn law_giving(v: AnswerView, tasks: int, live: bool)
    requires
        v.answers.len() < v.questions.len(),
    ensures
        ({
            let g = giving(v, tasks, live);
            let blank = text::trimmed(
                meant(v.questions[v.answers.len() as int], v.editor.text),
            ).len() == 0;
            &&& g is Busy <==> tasks >= 8
            &&& g is Withdrawn <==> tasks < 8 && !live
            &&& g is Nothing <==> tasks < 8 && live && blank
            &&& g is Complete <==> tasks < 8 && live && !blank && v.answers.len() + 1
                == v.questions.len()
            &&& g is Next <==> tasks < 8 && live && !blank && v.answers.len() + 1
                < v.questions.len()
        }),
{
}

/// Giving an answer keeps those before it, adds the one that was meant, and empties the editor.
pub proof fn law_answered(v: AnswerView)
    requires
        v.answers.len() < v.questions.len(),
    ensures
        answered(v).answers.len() == v.answers.len() + 1,
        forall|i: int| 0 <= i < v.answers.len() ==> answered(v).answers[i] == v.answers[i],
        answered(v).answers.last() == meant(v.questions[v.answers.len() as int], v.editor.text),
        answered(v).editor.text.len() == 0,
        answered(v).editor.cursor == 0,
        answered(v).scroll == 0,
        answered(v).questions == v.questions,
        answered(v).editor.limit == v.editor.limit,
{
}

/// A text scrolls by three lines and stops at its ends; where nothing stopped it, the other way
/// leads back.
pub proof fn law_scrolled(at: usize, maximum: usize)
    requires
        at <= maximum,
    ensures
        at + 3 <= maximum ==> scrolled(at, false, maximum) == at + 3 && scrolled(
            scrolled(at, false, maximum),
            true,
            maximum,
        ) == at,
        at + 3 > maximum ==> scrolled(at, false, maximum) == maximum,
        at >= 3 ==> scrolled(at, true, maximum) == at - 3,
        at < 3 ==> scrolled(at, true, maximum) == 0,
{
}

/// The bytes of some texts are the sum of the bytes of each.
pub proof fn law_total(v: Seq<Seq<char>>, s: Seq<char>)
    ensures
        total(v.push(s)) == total(v) + text::size(s),
        total(seq![]) == 0,
{
    assert(v.push(s).drop_last() =~= v);
}

} // verus!
