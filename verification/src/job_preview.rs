//! Watching the output of a running command.
use vstd::prelude::*;
use vstd::string::*;
use crate::actions;
use crate::actions::{
    make_menu, no_items, push_item, Action, Menu, MenuView,
};
use crate::display;
use crate::display::terminal_text;
use crate::number;
use crate::number::decimal;
use crate::pages;
use crate::pages::decode_lossy;
use crate::text;
use crate::text::{cat2, cat3, cat4, cat5};

verus! {

/// The bytes of each stream that are asked for.
pub const STREAM_BYTES: usize = 16384;

/// The milliseconds between two looks.
pub const POLL_MILLISECONDS: u64 = 250;

/// The commands of a page.
pub const JOB_LIMIT: usize = 32;

/// A command that runs.
#[derive(Debug)]
pub struct Job {
    pub request: u64,
    pub name: String,
    pub id: String,
    pub status: String,
    /// Whether it came from a tool, so that its output can be looked at.
    pub traced: bool,
}

/// The commands that can be looked at, of the first `n`.
pub open spec fn job_items(v: Seq<Job>, n: int) -> Seq<(Seq<char>, Action)>
    decreases n,
{
    if n <= 0 {
        seq![]
    } else if v[n - 1].traced {
        job_items(v, n - 1).push(
            (
                v[n - 1].name@ + " · "@ + v[n - 1].id@ + " · "@ + v[n - 1].status@,
                Action::Preview(v[n - 1].request),
            ),
        )
    } else {
        job_items(v, n - 1)
    }
}

/// The menu of running commands, or nothing where none can be looked at. `next` names the next
/// page, where there is one.
pub fn job_menu(v: &Vec<Job>, next: Option<u64>) -> (r: Option<Menu>)
    ensures
        ({
            let items = job_items(v@, v@.len() as int);
            let all = match next {
                Some(page) => items.push(("More commands"@, Action::Jobs(Some(page)))),
                None => items,
            };
            actions::menu_view(r) == (if all.len() == 0 {
                None
            } else {
                Some(actions::menu_of("Command output"@, all))
            })
        }),
{
    let mut items = no_items();
    let mut i: usize = 0;
    while i < v.len()
        invariant
            i <= v@.len(),
            actions::items_of(items@) == job_items(v@, i as int),
        decreases v@.len() - i,
    {
        if v[i].traced {
            let label = cat5(
                v[i].name.as_str(),
                " · ",
                v[i].id.as_str(),
                " · ",
                v[i].status.as_str(),
            );
            push_item(&mut items, label, Action::Preview(v[i].request));
        }
        i += 1;
    }
    if let Some(page) = next {
        push_item(&mut items, "More commands".to_owned(), Action::Jobs(Some(page)));
    }
    proof {
        assert(actions::items_of(items@).len() == items@.len());
    }
    if items.len() == 0 {
        None
    } else {
        Some(make_menu("Command output".to_owned(), items))
    }
}

/// What is being watched.
#[derive(Clone, Copy, Debug, PartialEq, Eq, Structural)]
pub struct Preview {
    pub request: u64,
    pub pending: bool,
    /// The time of the next look, in milliseconds.
    pub next: u64,
}

/// Whether it is time to look: nothing is being read, the text is shown and no menu covers it.
pub open spec fn due(p: Preview, now: u64, tasks: int, detail: bool, menu: bool) -> bool {
    tasks < 8 && !p.pending && now >= p.next && detail && !menu
}

impl Preview {
    /// Something to watch from now on.
    pub fn new(request: u64, now: u64) -> (r: Preview)
        ensures
            r == (Preview { request, pending: false, next: now }),
    {
        Preview { request, pending: false, next: now }
    }

    /// Looks, if it is time. Says what is to be read.
    pub fn poll(&mut self, now: u64, tasks: usize, detail: bool, menu: bool) -> (r: Option<u64>)
        requires
            now + POLL_MILLISECONDS <= u64::MAX,
        ensures
            if due(*old(self), now, tasks as int, detail, menu) {
                r == Some(old(self).request) && *final(self) == (Preview {
                    pending: true,
                    next: (now + POLL_MILLISECONDS) as u64,
                    ..*old(self)
                })
            } else {
                r is None && *final(self) == *old(self)
            },
    {
        if tasks >= 8 || self.pending || now < self.next || !detail || menu {
            return None;
        }
        self.next = now + POLL_MILLISECONDS;
        self.pending = true;
        Some(self.request)
    }

    /// Takes in that something came back for a look.
    pub fn looked(&mut self)
        ensures
            *final(self) == (Preview { pending: false, ..*old(self) }),
    {
        self.pending = false;
    }
}

/// A part of a stream of output.
#[derive(Debug)]
pub struct Stream {
    /// The bytes, as text.
    pub text: String,
    pub start: u64,
    pub end: u64,
    pub truncated: bool,
    /// The whole output, once it is complete.
    pub full: Option<u64>,
}

impl Stream {
    /// A part of a stream from its bytes, with what is no text in them replaced.
    pub fn read(
        bytes: &Vec<u8>,
        start: u64,
        end: u64,
        truncated: bool,
        full: Option<u64>,
    ) -> (r: Stream)
        ensures
            r.text@ == pages::lossy_text(bytes@),
            r.text@.len() == 0 <==> bytes@.len() == 0,
            r.start == start,
            r.end == end,
            r.truncated == truncated,
            r.full == full,
    {
        let text = decode_lossy(bytes.as_slice());
        proof {
            if bytes@.len() == 0 {
                assert(bytes@ =~= Seq::<u8>::empty());
                assert(vstd::utf8::valid_utf8(bytes@));
                text::lemma_size_encoded(text@);
            }
        }
        Stream { text, start, end, truncated, full }
    }
}

/// What came back for a look.
#[derive(Debug)]
pub enum Look {
    /// The owner is busy; the next look tries again.
    Busy,
    Failed(String),
    /// Of another request.
    Other,
    Gone,
    /// A stream that cannot be read.
    Unreadable(String),
    Output { job: String, status: String, terminal: bool, stdout: Stream, stderr: Stream },
}

/// What is shown of a stream.
pub open spec fn stream_text(name: Seq<char>, s: Stream) -> Seq<char> {
    if s.text@.len() == 0 {
        ""@
    } else {
        "\n"@ + name + " · bytes "@ + number::digits(s.start as nat) + ".."@ + number::digits(
            s.end as nat,
        ) + (if s.truncated {
            " · earlier bytes omitted"@
        } else {
            ""@
        }) + "\n"@ + display::shown_text(s.text@) + "\n"@
    }
}

fn make_stream(name: &str, s: &Stream) -> (t: String)
    ensures
        t@ == stream_text(name@, *s),
{
    if s.text.as_str().is_empty() {
        return "".to_owned();
    }
    let mut t: String = cat4("\n", name, " · bytes ", decimal(s.start).as_str());
    t.append("..");
    t.append(decimal(s.end).as_str());
    t.append(
        if s.truncated {
            " · earlier bytes omitted"
        } else {
            ""
        },
    );
    t.append("\n");
    t.append(terminal_text(s.text.as_str()).as_str());
    t.append("\n");
    t
}

pub open spec fn stream_items(stdout: Stream, stderr: Stream) -> Seq<(Seq<char>, Action)> {
    let a = match stdout.full {
        Some(id) => seq![("Full stdout"@, Action::Output { id, offset: 0 })],
        None => seq![],
    };
    match stderr.full {
        Some(id) => a.push(("Full stderr"@, Action::Output { id, offset: 0 })),
        None => a,
    }
}

/// What a look leads to.
#[derive(Debug)]
pub struct Shown {
    /// Whether watching goes on.
    pub watching: bool,
    /// The text in place of the one that is shown.
    pub text: Option<String>,
    /// What is added to the text that is shown.
    pub added: Option<String>,
    /// The actions in place of those that are offered, where the text is replaced.
    pub actions: Option<Menu>,
    pub notice: Option<String>,
}

/// What a [`Shown`] says.
#[verifier::ext_equal]
pub struct ShownView {
    pub watching: bool,
    pub text: Option<Seq<char>>,
    pub added: Option<Seq<char>>,
    pub actions: Option<MenuView>,
    pub notice: Option<Seq<char>>,
}

impl View for Shown {
    type V = ShownView;

    open spec fn view(&self) -> ShownView {
        ShownView {
            watching: self.watching,
            text: match self.text {
                Some(s) => Some(s@),
                None => None,
            },
            added: match self.added {
                Some(s) => Some(s@),
                None => None,
            },
            actions: actions::menu_view(self.actions),
            notice: match self.notice {
                Some(s) => Some(s@),
                None => None,
            },
        }
    }
}

pub open spec fn unchanged(watching: bool) -> ShownView {
    ShownView { watching, text: None, added: None, actions: None, notice: None }
}

/// What a look leads to.
pub open spec fn looked(l: Look) -> ShownView {
    match l {
        Look::Busy => unchanged(true),
        Look::Other => unchanged(true),
        Look::Failed(problem) => ShownView {
            added: Some(
                "\n\nLive output unavailable: "@ + problem@
                    + "\nThe transcript retains the tool result and completed-output references."@,
            ),
            ..unchanged(false)
        },
        Look::Gone => ShownView {
            added: Some(
                "\n\nLive output is no longer retained. Open the tool result in the transcript."@,
            ),
            ..unchanged(false)
        },
        Look::Unreadable(problem) => ShownView { notice: Some(problem@), ..unchanged(false) },
        Look::Output { job, status, terminal, stdout, stderr } => ShownView {
            watching: !terminal,
            text: Some(
                job@ + " · "@ + status@ + "\n"@ + stream_text("stdout"@, stdout) + stream_text(
                    "stderr"@,
                    stderr,
                ),
            ),
            added: None,
            actions: if stream_items(stdout, stderr).len() == 0 {
                None
            } else {
                Some(actions::menu_of("Completed output"@, stream_items(stdout, stderr)))
            },
            notice: None,
        },
    }
}

/// Takes in what came back for a look. Watching ends with the command, or when its output cannot
/// be had.
pub fn show(l: &Look) -> (r: Shown)
    ensures
        r@ == looked(*l),
{
    match l {
        Look::Busy => Shown {
            watching: true,
            text: None,
            added: None,
            actions: None,
            notice: None,
        },
        Look::Other => Shown {
            watching: true,
            text: None,
            added: None,
            actions: None,
            notice: None,
        },
        Look::Failed(problem) => Shown {
            watching: false,
            text: None,
            added: Some(
                cat3(
                    "\n\nLive output unavailable: ",
                    problem.as_str(),
                    "\nThe transcript retains the tool result and completed-output references.",
                ),
            ),
            actions: None,
            notice: None,
        },
        Look::Gone => Shown {
            watching: false,
            text: None,
            added: Some(
                "\n\nLive output is no longer retained. Open the tool result in the transcript.".to_owned(),
            ),
            actions: None,
            notice: None,
        },
        Look::Unreadable(problem) => Shown {
            watching: false,
            text: None,
            added: None,
            actions: None,
            notice: Some(problem.clone()),
        },
        Look::Output { job, status, terminal, stdout, stderr } => {
            let mut t: String = cat4(job.as_str(), " · ", status.as_str(), "\n");
            t.append(make_stream("stdout", stdout).as_str());
            t.append(make_stream("stderr", stderr).as_str());
            let mut items = no_items();
            if let Some(id) = stdout.full {
                push_item(&mut items, "Full stdout".to_owned(), Action::Output { id, offset: 0 });
            }
            if let Some(id) = stderr.full {
                push_item(&mut items, "Full stderr".to_owned(), Action::Output { id, offset: 0 });
            }
            proof {
                assert(actions::items_of(items@) =~= stream_items(*stdout, *stderr));
                assert(actions::items_of(items@).len() == items@.len());
            }
            Shown {
                watching: !*terminal,
                text: Some(t),
                added: None,
                actions: if items.len() == 0 {
                    None
                } else {
                    Some(make_menu("Completed output".to_owned(), items))
                },
                notice: None,
            }
        },
    }
}

/// At most one look is under way, and no two are closer than the interval.
pub proof fn law_one_look(p: Preview, now: u64, later: u64, tasks: int, detail: bool, menu: bool)
    requires
        due(p, now, tasks, detail, menu),
        now + POLL_MILLISECONDS <= u64::MAX,
    ensures
        ({
            let q = Preview { pending: true, next: (now + POLL_MILLISECONDS) as u64, ..p };
            &&& !due(q, later, tasks, detail, menu)
            &&& due(Preview { pending: false, ..q }, later, tasks, detail, menu) ==> later >= now
                + POLL_MILLISECONDS
        }),
{
}

/// Which page of running commands is read.
#[derive(Clone, Copy, Debug, PartialEq, Eq, Structural)]
pub enum Jobs {
    /// The first of a turn.
    First { turn: u64, limit: usize },
    /// One that was named by the page before it.
    Next(u64),
}

/// Asks for a page of the commands that run: for the one that is named, or for the first of the
/// turn that runs. Where no turn runs, nothing is asked.
pub fn jobs_request(turn: Option<u64>, page: Option<u64>) -> (r: Result<Jobs, &'static str>)
    ensures
        match turn {
            None => r matches Err(s) && s@ == "No command is running"@,
            Some(t) => r matches Ok(asked) && asked == (match page {
                Some(p) => Jobs::Next(p),
                None => Jobs::First { turn: t, limit: JOB_LIMIT },
            }),
        },
{
    match turn {
        None => Err("No command is running"),
        Some(turn) => Ok(
            match page {
                Some(p) => Jobs::Next(p),
                None => Jobs::First { turn, limit: JOB_LIMIT },
            },
        ),
    }
}

/// What is shown of the commands that run: their menu, or that there is nothing to look at.
pub fn jobs_shown(v: &Vec<Job>, next: Option<u64>) -> (r: Result<Menu, &'static str>)
    ensures
        ({
            let items = job_items(v@, v@.len() as int);
            let all = match next {
                Some(page) => items.push(("More commands"@, Action::Jobs(Some(page)))),
                None => items,
            };
            if all.len() == 0 {
                r matches Err(s) && s@ == "No live command output is available"@
            } else {
                r matches Ok(m) && m@ == actions::menu_of("Command output"@, all)
            }
        }),
{
    match job_menu(v, next) {
        Some(menu) => Ok(menu),
        None => Err("No live command output is available"),
    }
}

/// A look is due where fewer than eight requests are under way, none of its own is, its time has
/// come, and its text is shown without a menu over it.
pub proof fn law_due(p: Preview, now: u64, tasks: int, detail: bool, menu: bool)
    ensures
        due(p, now, tasks, detail, menu) <==> tasks < 8 && !p.pending && now >= p.next && detail
            && !menu,
{
}

/// What was kept of each stream leads to that stream, from its start.
pub proof fn law_stream_items(stdout: Stream, stderr: Stream)
    ensures
        ({
            let items = stream_items(stdout, stderr);
            &&& stdout.full matches Some(id) ==> items.len() > 0 && items[0] == (
                "Full stdout"@,
                Action::Output { id, offset: 0 },
            )
            &&& stderr.full matches Some(id) ==> items.len() > 0 && items.last() == (
                "Full stderr"@,
                Action::Output { id, offset: 0 },
            )
            &&& stdout.full is None && stderr.full is None ==> items.len() == 0
        }),
{
}

/// Looking goes on until the command has ended, is gone or could not be read; a look that found no
/// lane changes nothing.
pub proof fn law_looking(l: Look)
    ensures
        looked(l).watching <==> l is Busy || l is Other || (l matches Look::Output { terminal, .. }
            && !terminal),
        l is Busy || l is Other ==> looked(l).text is None && looked(l).added is None && looked(
            l,
        ).notice is None,
        l matches Look::Unreadable(problem) ==> looked(l).notice == Some(problem@),
        l is Failed || l is Gone ==> looked(l).added is Some && looked(l).text is None,
        l is Output ==> looked(l).text is Some,
{
}

/// A stream is shown under its name, with where it begins and ends, and nothing where it is empty.
pub proof fn law_stream_text(name: Seq<char>, s: Stream)
    ensures
        s.text@.len() > 0 && !s.truncated ==> stream_text(name, s) == "\n"@ + name + " · bytes "@
            + number::digits(s.start as nat) + ".."@ + number::digits(s.end as nat) + ""@ + "\n"@
            + display::shown_text(s.text@) + "\n"@,
        s.text@.len() > 0 && s.truncated ==> stream_text(name, s) == "\n"@ + name + " · bytes "@
            + number::digits(s.start as nat) + ".."@ + number::digits(s.end as nat)
            + " · earlier bytes omitted"@ + "\n"@ + display::shown_text(s.text@) + "\n"@,
        s.text@.len() == 0 ==> stream_text(name, s) == ""@,
{
}

/// The commands that can be looked at are those that are traced, in order.
pub proof fn law_job_items(v: Seq<Job>, n: int)
    requires
        0 <= n < v.len(),
    ensures
        !v[n].traced ==> job_items(v, n + 1) == job_items(v, n),
        v[n].traced ==> job_items(v, n + 1) == job_items(v, n).push(
            (
                v[n].name@ + " · "@ + v[n].id@ + " · "@ + v[n].status@,
                Action::Preview(v[n].request),
            ),
        ),
        job_items(v, 0).len() == 0,
{
}

} // verus!
