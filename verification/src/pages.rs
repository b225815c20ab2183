//! What is shown of a conversation's agents, pending inputs, outputs and sources.
use vstd::prelude::*;
use vstd::string::*;
use crate::actions;
use crate::actions::{
    make_menu, no_items, push_item, Action, Detail, DetailView, Menu, MenuView, Source,
};
use crate::display;
use crate::display::terminal_text;
use crate::number;
use crate::number::decimal;
use crate::references;
use crate::text::{cat2, cat3, cat4, cat5};

verus! {

/// The bytes of a page of output.
pub const OUTPUT_BYTES: u64 = 16384;

/// An agent below a conversation.
#[derive(Debug)]
pub struct Agent {
    /// Its place in the tree.
    pub path: Vec<u16>,
    pub task: String,
    pub open_turn: bool,
    /// Whether it is activated, or a message wakes it.
    pub active: bool,
    pub waking: bool,
    /// The conversation it has.
    pub session: u64,
}

/// A place in a tree, of the first `n` steps.
pub open spec fn path_text(v: Seq<u16>, n: int) -> Seq<char>
    decreases n,
{
    if n <= 0 {
        seq![]
    } else if n == 1 {
        number::digits(v[0] as nat)
    } else {
        path_text(v, n - 1) + "."@ + number::digits(v[n - 1] as nat)
    }
}

fn show_path(v: &Vec<u16>) -> (r: String)
    ensures
        r@ == path_text(v@, v@.len() as int),
{
    if v.len() == 0 {
        let r = String::new();
        proof {
            assert(r@ =~= Seq::<char>::empty());
        }
        return r;
    }
    let mut out = decimal(v[0] as u64);
    let mut i: usize = 1;
    while i < v.len()
        invariant
            1 <= i <= v@.len(),
            out@ == path_text(v@, i as int),
        decreases v@.len() - i,
    {
        out = cat3(out.as_str(), ".", decimal(v[i] as u64).as_str());
        i += 1;
    }
    out
}

/// What an agent is doing.
pub open spec fn phase_of(a: Agent) -> Seq<char> {
    if a.open_turn {
        "working"@
    } else if a.active || a.waking {
        "waiting"@
    } else {
        "idle"@
    }
}

/// The first `n` agents.
pub open spec fn agent_items(v: Seq<Agent>, n: int) -> Seq<(Seq<char>, Action)>
    decreases n,
{
    if n <= 0 {
        seq![]
    } else {
        agent_items(v, n - 1).push(
            (
                path_text(v[n - 1].path@, v[n - 1].path@.len() as int) + " · "@ + v[n - 1].task@
                    + " · "@ + phase_of(v[n - 1]),
                Action::Attach(v[n - 1].session),
            ),
        )
    }
}

/// The menu of the agents below a conversation.
pub fn agents_menu(v: &Vec<Agent>) -> (r: Menu)
    ensures
        r@ == actions::menu_of("Subagent sessions"@, agent_items(v@, v@.len() as int)),
{
    let mut items = no_items();
    let mut i: usize = 0;
    while i < v.len()
        invariant
            i <= v@.len(),
            actions::items_of(items@) == agent_items(v@, i as int),
        decreases v@.len() - i,
    {
        let phase: &'static str = if v[i].open_turn {
            "working"
        } else if v[i].active || v[i].waking {
            "waiting"
        } else {
            "idle"
        };
        push_item(
            &mut items,
            cat5(show_path(&v[i].path).as_str(), " · ", v[i].task.as_str(), " · ", phase),
            Action::Attach(v[i].session),
        );
        i += 1;
    }
    make_menu("Subagent sessions".to_owned(), items)
}

/// An input that is pending.
#[derive(Debug)]
pub struct Pending {
    pub handle: u64,
    pub id: String,
    pub delivery: String,
    pub target: String,
}

/// The first `n` pending inputs.
pub open spec fn pending_items(v: Seq<Pending>, n: int) -> Seq<(Seq<char>, Action)>
    decreases n,
{
    if n <= 0 {
        seq![]
    } else {
        pending_items(v, n - 1).push(
            (
                v[n - 1].id@ + " · "@ + v[n - 1].delivery@ + " → "@ + v[n - 1].target@,
                Action::Message(v[n - 1].handle),
            ),
        )
    }
}

/// The menu of the inputs that are pending.
pub fn queue_menu(v: &Vec<Pending>) -> (r: Menu)
    ensures
        r@ == actions::menu_of("Pending inputs"@, pending_items(v@, v@.len() as int)),
{
    let mut items = no_items();
    let mut i: usize = 0;
    while i < v.len()
        invariant
            i <= v@.len(),
            actions::items_of(items@) == pending_items(v@, i as int),
        decreases v@.len() - i,
    {
        push_item(
            &mut items,
            cat5(
                v[i].id.as_str(),
                " · ",
                v[i].delivery.as_str(),
                " → ",
                v[i].target.as_str(),
            ),
            Action::Message(v[i].handle),
        );
        i += 1;
    }
    make_menu("Pending inputs".to_owned(), items)
}

/// What the menu of a pending input is called.
pub fn pending_title(p: &Pending) -> (r: String)
    ensures
        r@ == p.id@ + " · "@ + p.target@,
{
    cat3(p.id.as_str(), " · ", p.target.as_str())
}

/// An accepted input, as it is shown.
pub fn message_detail(handle: u64, id: &str, body: &str) -> (d: Detail)
    ensures
        d@ == (DetailView {
            text: display::shown_text(body@),
            previous: None,
            next: None,
            actions: Some(
                actions::menu_of(
                    id@ + " · immutable accepted input"@,
                    seq![("Cancel this input"@, Action::CancelMessage(handle))],
                ),
            ),
            info: "Immutable accepted body · Enter opens cancellation"@,
        }),
{
    let mut items = no_items();
    push_item(&mut items, "Cancel this input".to_owned(), Action::CancelMessage(handle));
    proof {
        assert(actions::items_of(items@) =~= seq![
            ("Cancel this input"@, Action::CancelMessage(handle)),
        ]);
    }
    Detail {
        text: terminal_text(body),
        previous: None,
        next: None,
        actions: Some(make_menu(cat2(id, " · immutable accepted input"), items)),
        info: "Immutable accepted body · Enter opens cancellation".to_owned(),
    }
}

/// Bytes as a text, with what is no text in them replaced.
pub uninterp spec fn lossy_text(bytes: Seq<u8>) -> Seq<char>;

/// `String::from_utf8_lossy`: the text depends on the bytes alone. Bytes that encode a text give
/// that text, and no bytes but none give an empty one: what encodes nothing is replaced.
#[verifier::external_body]
pub(crate) fn decode_lossy(bytes: &[u8]) -> (r: String)
    ensures
        r@ == lossy_text(bytes@),
        vstd::utf8::valid_utf8(bytes@) ==> vstd::utf8::encode_utf8(r@) == bytes@,
        bytes@.len() > 0 ==> r@.len() > 0,
{
    String::from_utf8_lossy(bytes).into_owned()
}

/// A page of the output of a command that has ended.
#[derive(Debug)]
pub struct OutputPage {
    pub handle: u64,
    pub id: String,
    pub offset: u64,
    pub next_offset: u64,
    pub total_bytes: u64,
    pub bytes: Vec<u8>,
}

/// What is shown of a page of output whose text is given.
pub open spec fn output_shown(p: OutputPage, s: Seq<char>) -> DetailView {
    DetailView {
        text: "Completed output "@ + p.id@ + " · bytes "@ + number::digits(p.offset as nat) + ".."@
            + number::digits(p.next_offset as nat) + " / "@ + number::digits(p.total_bytes as nat)
            + "\n"@ + display::shown_text(s),
        previous: if p.offset > 0 {
            Some(
                Action::Output {
                    id: p.handle,
                    offset: references::back_by(p.offset, OUTPUT_BYTES),
                },
            )
        } else {
            None
        },
        next: if p.next_offset < p.total_bytes {
            Some(Action::Output { id: p.handle, offset: p.next_offset })
        } else {
            None
        },
        actions: None,
        info: "Output page · ←/→ pages · ↑/↓ scroll · Ctrl+Y copies this displayed page"@,
    }
}

/// Shows a page of output with the text that its bytes were read as.
pub fn show_output_text(p: &OutputPage, s: &str) -> (d: Detail)
    ensures
        d@ == output_shown(*p, s@),
{
    let range = cat5(
        "Completed output ",
        p.id.as_str(),
        " · bytes ",
        decimal(p.offset).as_str(),
        "..",
    );
    let total = cat5(
        range.as_str(),
        decimal(p.next_offset).as_str(),
        " / ",
        decimal(p.total_bytes).as_str(),
        "\n",
    );
    Detail {
        text: cat2(total.as_str(), terminal_text(s).as_str()),
        previous: if p.offset > 0 {
            Some(
                Action::Output { id: p.handle, offset: p.offset.saturating_sub(OUTPUT_BYTES) },
            )
        } else {
            None
        },
        next: if p.next_offset < p.total_bytes {
            Some(Action::Output { id: p.handle, offset: p.next_offset })
        } else {
            None
        },
        actions: None,
        info:
            "Output page · ←/→ pages · ↑/↓ scroll · Ctrl+Y copies this displayed page".to_owned(),
    }
}

/// Shows a page of output.
pub fn show_output(p: &OutputPage) -> (d: Detail)
    ensures
        d@ == output_shown(*p, lossy_text(p.bytes@)),
{
    show_output_text(p, decode_lossy(p.bytes.as_slice()).as_str())
}

/// A window of a recorded field.
#[derive(Debug)]
pub struct Window {
    pub source: Source,
    pub start: u64,
    pub text: String,
    /// Where the text ends.
    pub end: u64,
    pub truncated_after: bool,
}

/// Shows a window of a recorded field, in steps of `window` bytes.
pub fn show_window(w: &Window, window: u64) -> (d: Detail)
    ensures
        d@ == (DetailView {
            text: w.text@,
            previous: if w.start > 0 {
                Some(
                    Action::Window {
                        source: w.source,
                        offset: references::back_by(w.start, window),
                    },
                )
            } else {
                None
            },
            next: if w.end > w.start && w.truncated_after {
                Some(Action::Window { source: w.source, offset: w.end })
            } else {
                None
            },
            actions: None,
            info: "Fact "@ + number::digits(w.source.seq as nat) + " field "@ + number::digits(
                w.source.field as nat,
            ) + " · bytes "@ + number::digits(w.start as nat) + ".."@ + number::digits(
                w.end as nat,
            ) + " · ←/→ source windows · Ctrl+Y copies this window"@,
        }),
{
    let field = cat5(
        "Fact ",
        decimal(w.source.seq).as_str(),
        " field ",
        decimal(w.source.field).as_str(),
        " · bytes ",
    );
    Detail {
        text: w.text.clone(),
        previous: if w.start > 0 {
            Some(
                Action::Window { source: w.source, offset: w.start.saturating_sub(window) },
            )
        } else {
            None
        },
        next: if w.end > w.start && w.truncated_after {
            Some(Action::Window { source: w.source, offset: w.end })
        } else {
            None
        },
        actions: None,
        info: cat5(
            field.as_str(),
            decimal(w.start).as_str(),
            "..",
            decimal(w.end).as_str(),
            " · ←/→ source windows · Ctrl+Y copies this window",
        ),
    }
}

/// What is said once a model was selected.
pub fn model_selected(model: &str, effort: Option<&str>) -> (r: String)
    ensures
        r@ == "Switched to "@ + model@ + " · "@ + (match effort {
            Some(e) => e@,
            None => "default"@,
        }),
{
    let effort: &str = match effort {
        Some(e) => e,
        None => "default",
    };
    cat4("Switched to ", model, " · ", effort)
}

/// What is said of how many cancellations were accepted.
pub fn cancelled(count: u64) -> (r: String)
    ensures
        r@ == "Cancellation accepted for "@ + number::digits(count as nat) + " targets"@,
{
    cat3("Cancellation accepted for ", decimal(count).as_str(), " targets")
}

/// What is said of the cancellation of one input.
pub fn message_cancelled(accepted: bool) -> (r: String)
    ensures
        r@ == (if accepted {
            "Cancellation accepted: true"@
        } else {
            "Cancellation accepted: false"@
        }),
{
    if accepted {
        "Cancellation accepted: true".to_owned()
    } else {
        "Cancellation accepted: false".to_owned()
    }
}

/// What is said of whether texts are formatted.
pub fn markdown_status(enabled: bool) -> (r: &'static str)
    ensures
        r@ == (if enabled {
            "Markdown rendering on (this process)"@
        } else {
            "Markdown rendering off (original text; this process)"@
        }),
{
    if enabled {
        "Markdown rendering on (this process)"
    } else {
        "Markdown rendering off (original text; this process)"
    }
}

/// Pages of output go back by at most a page, and never before the start.
pub proof fn law_output_back(p: OutputPage, s: Seq<char>)
    ensures
        output_shown(p, s).previous matches Some(a) ==> (a matches Action::Output { id, offset }
            && id == p.handle && offset < p.offset && p.offset - offset <= OUTPUT_BYTES),
        p.offset > 0 <==> output_shown(p, s).previous is Some,
{
}

/// A page of output leads back by 16 KiB, or to the beginning, and on to where it ends, as long as
/// there is more.
pub proof fn law_output_pages(p: OutputPage, s: Seq<char>)
    ensures
        p.offset >= 16384 ==> output_shown(p, s).previous == Some(
            Action::Output { id: p.handle, offset: (p.offset - 16384) as u64 },
        ),
        0 < p.offset < 16384 ==> output_shown(p, s).previous == Some(
            Action::Output { id: p.handle, offset: 0 },
        ),
        p.offset == 0 ==> output_shown(p, s).previous is None,
        p.next_offset < p.total_bytes ==> output_shown(p, s).next == Some(
            Action::Output { id: p.handle, offset: p.next_offset },
        ),
        p.next_offset >= p.total_bytes ==> output_shown(p, s).next is None,
{
}

/// An agent with an open turn works, one that is active or woken waits, and any other is idle.
pub proof fn law_phase(a: Agent)
    ensures
        a.open_turn ==> phase_of(a) == "working"@,
        !a.open_turn && (a.active || a.waking) ==> phase_of(a) == "waiting"@,
        !a.open_turn && !a.active && !a.waking ==> phase_of(a) == "idle"@,
{
}

/// The agents and the pending inputs of a list, each with its own.
pub proof fn law_page_items(v: Seq<Agent>, w: Seq<Pending>, n: int, m: int, i: int)
    requires
        0 <= n <= v.len(),
        0 <= m <= w.len(),
    ensures
        agent_items(v, n).len() == n,
        pending_items(w, m).len() == m,
        0 <= i < n ==> agent_items(v, n)[i].1 == Action::Attach(v[i].session),
        0 <= i < m ==> pending_items(w, m)[i] == (
            w[i].id@ + " · "@ + w[i].delivery@ + " → "@ + w[i].target@,
            Action::Message(w[i].handle),
        ),
    decreases n + m,
{
    if n > 0 {
        law_page_items(v, w, n - 1, m, i);
    } else if m > 0 {
        law_page_items(v, w, n, m - 1, i);
    }
}

/// A place in a tree is written with a dot between each two steps.
pub proof fn law_path(v: Seq<u16>, n: int)
    requires
        1 <= n < v.len(),
    ensures
        path_text(v, n + 1) == path_text(v, n) + "."@ + number::digits(v[n] as nat),
        path_text(v, 1) == number::digits(v[0] as nat),
        path_text(v, 0).len() == 0,
{
}

} // verus!
