//! What is shown of the use that a conversation made of models.
use vstd::prelude::*;
use vstd::string::*;
use crate::actions;
use crate::actions::{
    make_menu, no_items, push_item, Action, Detail, DetailView, Menu, Section,
};
use crate::display;
use crate::display::terminal_text;
use crate::number;
use crate::number::decimal;
use crate::references;
use crate::text;
use crate::text::{byte_len, cat2, cat3, cat4};

verus! {

/// The last request that was made.
#[derive(Debug)]
pub struct Last {
    pub model: String,
    pub effort: Option<String>,
    pub elapsed_ms: Option<u64>,
    pub failed: bool,
}

/// What requests cost, as configured.
#[derive(Debug)]
pub struct Cost {
    /// Whether nothing is missing.
    pub complete: bool,
    pub totals: Vec<String>,
    pub missing_price: u64,
    pub missing_usage: u64,
    pub missing_breakdown: u64,
    pub overflow: u64,
}

/// The use of models.
#[derive(Debug)]
pub struct Usage {
    pub attempts: u64,
    pub failed: u64,
    pub input: u64,
    pub output: u64,
    pub reported: u64,
    pub cache_read: Option<u64>,
    pub cache_write: Option<u64>,
    pub reasoning: Option<u64>,
    pub last: Option<Last>,
    pub cost: Cost,
}

/// The use of models by a conversation.
#[derive(Debug)]
pub struct Metrics {
    pub complete: bool,
    pub usage: Usage,
    /// Why the selected model cannot be used.
    pub unavailable: Option<String>,
}

/// What is said of requests and tokens.
pub open spec fn usage_text(u: Usage) -> Seq<char> {
    number::digits(u.attempts as nat) + " requests · "@ + number::digits(u.failed as nat)
        + " failed\n"@ + number::digits(u.input as nat) + " input tokens · "@ + number::digits(
        u.output as nat,
    ) + " output tokens\nUsage reported for "@ + number::digits(u.reported as nat) + " of "@
        + number::digits(u.attempts as nat) + " requests\n"@
}

fn make_usage(u: &Usage) -> (t: String)
    ensures
        t@ == usage_text(*u),
{
    let mut t: String = decimal(u.attempts);
    t.append(" requests · ");
    t.append(decimal(u.failed).as_str());
    t.append(" failed\n");
    t.append(decimal(u.input).as_str());
    t.append(" input tokens · ");
    t.append(decimal(u.output).as_str());
    t.append(" output tokens\nUsage reported for ");
    t.append(decimal(u.reported).as_str());
    t.append(" of ");
    t.append(decimal(u.attempts).as_str());
    t.append(" requests\n");
    t
}

/// A count of tokens, where there is one.
pub open spec fn tokens_line(label: Seq<char>, n: Option<u64>) -> Seq<char> {
    match n {
        Some(n) => label + ": "@ + number::digits(n as nat) + " tokens\n"@,
        None => seq![],
    }
}

fn make_tokens(label: &str, n: Option<u64>) -> (t: String)
    ensures
        t@ == tokens_line(label@, n),
{
    match n {
        Some(n) => cat4(label, ": ", decimal(n).as_str(), " tokens\n"),
        None => {
            let t = String::new();
            proof {
                assert(t@ =~= tokens_line(label@, n));
            }
            t
        },
    }
}

/// The thousandths of a number, in three digits.
pub open spec fn thousandths(n: nat) -> Seq<char> {
    (if n % 1000 < 10 {
        "00"@
    } else if n % 1000 < 100 {
        "0"@
    } else {
        ""@
    }) + number::digits(n % 1000)
}

fn make_thousandths(n: u64) -> (t: String)
    ensures
        t@ == thousandths(n as nat),
{
    let m: u64 = n % 1000;
    cat2(
        if m < 10 {
            "00"
        } else if m < 100 {
            "0"
        } else {
            ""
        },
        decimal(m).as_str(),
    )
}

pub open spec fn last_text(l: Last) -> Seq<char> {
    "\nLast request: "@ + l.model@ + (match l.effort {
        Some(e) => " / "@ + e@,
        None => ""@,
    }) + (match l.elapsed_ms {
        Some(ms) => " · "@ + number::digits(ms as nat / 1000) + "."@ + thousandths(ms as nat)
            + "s"@,
        None => ""@,
    }) + (if l.failed {
        " · failed"@
    } else {
        ""@
    }) + "\n"@
}

fn make_last(l: &Last) -> (t: String)
    ensures
        t@ == last_text(*l),
{
    let effort: String = match &l.effort {
        Some(e) => cat2(" / ", e.as_str()),
        None => "".to_owned(),
    };
    let elapsed: String = match l.elapsed_ms {
        Some(ms) => {
            let mut e: String = cat3(" · ", decimal(ms / 1000).as_str(), ".");
            e.append(make_thousandths(ms).as_str());
            e.append("s");
            e
        },
        None => "".to_owned(),
    };
    let mut t: String = cat4("\nLast request: ", l.model.as_str(), effort.as_str(), elapsed.as_str());
    t.append(
        if l.failed {
            " · failed"
        } else {
            ""
        },
    );
    t.append("\n");
    t
}

/// The first `n` lines, each with its end.
pub open spec fn totals_text(v: Seq<String>, n: int) -> Seq<char>
    decreases n,
{
    if n <= 0 {
        seq![]
    } else {
        totals_text(v, n - 1) + v[n - 1]@ + "\n"@
    }
}

fn make_totals(v: &Vec<String>) -> (t: String)
    ensures
        t@ == totals_text(v@, v@.len() as int),
{
    let mut t = String::new();
    let mut i: usize = 0;
    proof {
        assert(t@ =~= totals_text(v@, 0));
    }
    while i < v.len()
        invariant
            i <= v@.len(),
            t@ == totals_text(v@, i as int),
        decreases v@.len() - i,
    {
        t.append(v[i].as_str());
        t.append("\n");
        i += 1;
    }
    t
}

/// A count of requests that something is missing of.
pub open spec fn missing_line(label: Seq<char>, n: u64) -> Seq<char> {
    if n > 0 {
        label + ": "@ + number::digits(n as nat) + " requests\n"@
    } else {
        ""@
    }
}

fn make_missing(label: &str, n: u64) -> (t: String)
    ensures
        t@ == missing_line(label@, n),
{
    if n > 0 {
        cat4(label, ": ", decimal(n).as_str(), " requests\n")
    } else {
        "".to_owned()
    }
}

pub open spec fn cost_text(c: Cost, complete: bool) -> Seq<char> {
    "\nConfigured cost"@ + (if !c.complete || !complete {
        " · partial"@
    } else {
        ""@
    }) + "\n"@ + totals_text(c.totals@, c.totals@.len() as int) + (if c.totals@.len() == 0 {
        "No priced usage available\n"@
    } else {
        ""@
    }) + missing_line("Missing price"@, c.missing_price) + missing_line(
        "Missing usage"@,
        c.missing_usage,
    ) + missing_line("Missing cache breakdown"@, c.missing_breakdown) + missing_line(
        "Amount exceeds supported range"@,
        c.overflow,
    )
}

fn make_cost(c: &Cost, complete: bool) -> (t: String)
    ensures
        t@ == cost_text(*c, complete),
{
    let mut t: String = cat3(
        "\nConfigured cost",
        if !c.complete || !complete {
            " · partial"
        } else {
            ""
        },
        "\n",
    );
    t.append(make_totals(&c.totals).as_str());
    t.append(
        if c.totals.len() == 0 {
            "No priced usage available\n"
        } else {
            ""
        },
    );
    t.append(make_missing("Missing price", c.missing_price).as_str());
    t.append(make_missing("Missing usage", c.missing_usage).as_str());
    t.append(make_missing("Missing cache breakdown", c.missing_breakdown).as_str());
    t.append(make_missing("Amount exceeds supported range", c.overflow).as_str());
    t
}

/// What is shown of the use of models. `configured` says whether prices are.
pub open spec fn metrics_shown(m: Metrics, configured: bool) -> Seq<char> {
    "Session usage"@ + (if m.complete {
        ""@
    } else {
        " · still loading"@
    }) + "\n"@ + usage_text(m.usage) + tokens_line("Cache read"@, m.usage.cache_read)
        + tokens_line("Cache write"@, m.usage.cache_write) + tokens_line(
        "Reasoning"@,
        m.usage.reasoning,
    ) + (match m.usage.last {
        Some(l) => last_text(l),
        None => ""@,
    }) + (if configured {
        cost_text(m.usage.cost, m.complete)
    } else {
        ""@
    }) + (match m.unavailable {
        Some(reason) => "\nSelected model unavailable: "@ + reason@
            + "\n/model opens model and effort selection\n"@,
        None => ""@,
    })
}

/// Shows the use of models by a conversation.
pub fn metrics_text(m: &Metrics, configured: bool) -> (t: String)
    ensures
        t@ == metrics_shown(*m, configured),
{
    let last: String = match &m.usage.last {
        Some(l) => make_last(l),
        None => "".to_owned(),
    };
    let cost: String = if configured {
        make_cost(&m.usage.cost, m.complete)
    } else {
        "".to_owned()
    };
    let unavailable: String = match &m.unavailable {
        Some(reason) => cat3(
            "\nSelected model unavailable: ",
            reason.as_str(),
            "\n/model opens model and effort selection\n",
        ),
        None => "".to_owned(),
    };
    let mut t: String = cat3(
        "Session usage",
        if m.complete {
            ""
        } else {
            " · still loading"
        },
        "\n",
    );
    t.append(make_usage(&m.usage).as_str());
    t.append(make_tokens("Cache read", m.usage.cache_read).as_str());
    t.append(make_tokens("Cache write", m.usage.cache_write).as_str());
    t.append(make_tokens("Reasoning", m.usage.reasoning).as_str());
    t.append(last.as_str());
    t.append(cost.as_str());
    t.append(unavailable.as_str());
    t
}

/// A conversation of a tree, as far as it was read.
#[derive(Debug)]
pub struct Member {
    pub session: String,
    pub through: u64,
    pub watermark: Option<u64>,
    pub complete: bool,
}

/// The use of models by a tree of conversations.
#[derive(Debug)]
pub struct Tree {
    pub complete: bool,
    pub membership_complete: bool,
    pub members: Vec<Member>,
    pub usage: Usage,
    pub control: u64,
}

/// How many of the first `n` conversations were read.
pub open spec fn complete_members(v: Seq<Member>, n: int) -> nat
    decreases n,
{
    if n <= 0 {
        0
    } else if v[n - 1].complete {
        complete_members(v, n - 1) + 1
    } else {
        complete_members(v, n - 1)
    }
}

pub open spec fn member_text(m: Member) -> Seq<char> {
    m.session@ + ": "@ + number::digits(m.through as nat) + " / "@ + (match m.watermark {
        Some(w) => number::digits(w as nat),
        None => "not sampled"@,
    }) + (if m.complete {
        ""@
    } else {
        " · loading"@
    }) + "\n"@
}

pub open spec fn members_text(v: Seq<Member>, n: int) -> Seq<char>
    decreases n,
{
    if n <= 0 {
        seq![]
    } else {
        members_text(v, n - 1) + member_text(v[n - 1])
    }
}

/// What is shown of the use of models by a tree.
pub open spec fn tree_text(r: Tree) -> Seq<char> {
    "Agent tree usage"@ + (if r.complete && r.membership_complete {
        ""@
    } else {
        " · partial"@
    }) + "\n"@ + number::digits(complete_members(r.members@, r.members@.len() as int)) + " / "@
        + number::digits(r.members@.len()) + " sessions read"@ + (if r.membership_complete {
        ""@
    } else {
        " · first 256 members only"@
    }) + "\n"@ + usage_text(r.usage)
        + "\nEach session has its own captured Fact watermark.\nMembership control cursor: "@
        + number::digits(r.control as nat) + "\n"@ + members_text(
        r.members@,
        r.members@.len() as int,
    ) + (if r.usage.cost.totals@.len() == 0 {
        ""@
    } else {
        (if r.usage.cost.complete && r.complete && r.membership_complete {
            "\nConfigured cost\n"@
        } else {
            "\nConfigured cost · partial\n"@
        }) + totals_text(r.usage.cost.totals@, r.usage.cost.totals@.len() as int)
    })
}

fn count_complete(v: &Vec<Member>) -> (n: usize)
    ensures
        n == complete_members(v@, v@.len() as int),
        n <= v@.len(),
{
    let mut n: usize = 0;
    let mut i: usize = 0;
    while i < v.len()
        invariant
            i <= v@.len(),
            n <= i,
            n == complete_members(v@, i as int),
        decreases v@.len() - i,
    {
        if v[i].complete {
            n += 1;
        }
        i += 1;
    }
    n
}

fn make_members(v: &Vec<Member>) -> (t: String)
    ensures
        t@ == members_text(v@, v@.len() as int),
{
    let mut t = String::new();
    let mut i: usize = 0;
    proof {
        assert(t@ =~= members_text(v@, 0));
    }
    while i < v.len()
        invariant
            i <= v@.len(),
            t@ == members_text(v@, i as int),
        decreases v@.len() - i,
    {
        let watermark: String = match v[i].watermark {
            Some(w) => decimal(w),
            None => "not sampled".to_owned(),
        };
        let mut line: String = cat4(
            v[i].session.as_str(),
            ": ",
            decimal(v[i].through).as_str(),
            " / ",
        );
        line.append(watermark.as_str());
        line.append(
            if v[i].complete {
                ""
            } else {
                " · loading"
            },
        );
        line.append("\n");
        t.append(line.as_str());
        i += 1;
    }
    t
}

/// Shows the use of models by a tree of conversations.
pub fn show_tree_metrics(r: &Tree) -> (d: Detail)
    ensures
        d@ == (DetailView {
            text: tree_text(*r),
            previous: None,
            next: Some(Action::TreeMetrics(r.complete)),
            actions: None,
            info: if r.complete {
                "→ Refresh tree usage"@
            } else {
                "→ Continue loading tree usage"@
            },
        }),
{
    let cost: String = if r.usage.cost.totals.len() == 0 {
        "".to_owned()
    } else {
        cat2(
            if r.usage.cost.complete && r.complete && r.membership_complete {
                "\nConfigured cost\n"
            } else {
                "\nConfigured cost · partial\n"
            },
            make_totals(&r.usage.cost.totals).as_str(),
        )
    };
    let mut t: String = cat3(
        "Agent tree usage",
        if r.complete && r.membership_complete {
            ""
        } else {
            " · partial"
        },
        "\n",
    );
    t.append(decimal(count_complete(&r.members) as u64).as_str());
    t.append(" / ");
    t.append(decimal(r.members.len() as u64).as_str());
    t.append(" sessions read");
    t.append(
        if r.membership_complete {
            ""
        } else {
            " · first 256 members only"
        },
    );
    t.append("\n");
    t.append(make_usage(&r.usage).as_str());
    t.append("\nEach session has its own captured Fact watermark.\nMembership control cursor: ");
    t.append(decimal(r.control).as_str());
    t.append("\n");
    t.append(make_members(&r.members).as_str());
    t.append(cost.as_str());
    Detail {
        text: t,
        previous: None,
        next: Some(Action::TreeMetrics(r.complete)),
        actions: None,
        info: if r.complete {
            "→ Refresh tree usage".to_owned()
        } else {
            "→ Continue loading tree usage".to_owned()
        },
    }
}

pub open spec fn section_name(s: Section) -> Seq<char> {
    match s {
        Section::Configuration => "Configuration"@,
        Section::System => "System"@,
        Section::Tools => "Tools"@,
    }
}

fn name_section(s: Section) -> (r: &'static str)
    ensures
        r@ == section_name(s),
{
    match s {
        Section::Configuration => "Configuration",
        Section::System => "System",
        Section::Tools => "Tools",
    }
}

/// A page of what was sent to a model, or why there is none.
#[derive(Debug)]
pub enum Evidence {
    Budget,
    NotCaptured,
    Page { start: u32, text: String, more: bool, total: u64 },
}

/// Where the window before one starts.
pub open spec fn window_before(start: u32, window: u32) -> u32 {
    if start > window {
        (start - window) as u32
    } else {
        0
    }
}

/// What is shown of a page of what was sent to a model, in windows of some bytes.
pub open spec fn evidence_detail(
    seq: u64,
    section: Section,
    e: Evidence,
    window: u32,
) -> DetailView {
    match e {
        Evidence::Budget => DetailView {
            text: "Request evidence is unavailable because its byte budget was exhausted."@,
            previous: None,
            next: None,
            actions: None,
            info: ""@,
        },
        Evidence::NotCaptured => DetailView {
            text: "This request did not capture inspection evidence."@,
            previous: None,
            next: None,
            actions: None,
            info: ""@,
        },
        Evidence::Page { start, text: s, more, total } => {
            let next = (start + text::size(s@)) as u32;
            DetailView {
                text: s@,
                previous: if start > 0 {
                    Some(Action::Evidence { seq, section, from: window_before(start, window) })
                } else {
                    None
                },
                next: if more {
                    Some(Action::Evidence { seq, section, from: next })
                } else {
                    None
                },
                actions: None,
                info: "Request "@ + number::digits(seq as nat) + " · "@ + section_name(section)
                    + " · bytes "@ + number::digits(start as nat) + ".."@ + number::digits(
                    next as nat,
                ) + " / "@ + number::digits(total as nat) + " · ←/→ pages"@,
            }
        },
    }
}

/// Shows a page of what was sent to a model.
pub fn show_evidence(seq: u64, section: Section, e: &Evidence, window: u32) -> (d: Detail)
    requires
        e matches Evidence::Page { start, text: s, .. } ==> start + text::size(s@) <= u32::MAX,
    ensures
        d@ == evidence_detail(seq, section, *e, window),
{
    match e {
        Evidence::Budget => Detail {
            text: "Request evidence is unavailable because its byte budget was exhausted.".to_owned(),
            previous: None,
            next: None,
            actions: None,
            info: "".to_owned(),
        },
        Evidence::NotCaptured => Detail {
            text: "This request did not capture inspection evidence.".to_owned(),
            previous: None,
            next: None,
            actions: None,
            info: "".to_owned(),
        },
        Evidence::Page { start, text: s, more, total } => {
            let next: u32 = *start + byte_len(s.as_str()) as u32;
            let mut info: String = cat4(
                "Request ",
                decimal(seq).as_str(),
                " · ",
                name_section(section),
            );
            info.append(" · bytes ");
            info.append(decimal(*start as u64).as_str());
            info.append("..");
            info.append(decimal(next as u64).as_str());
            info.append(" / ");
            info.append(decimal(*total).as_str());
            info.append(" · ←/→ pages");
            Detail {
                text: s.clone(),
                previous: if *start > 0 {
                    Some(Action::Evidence { seq, section, from: start.saturating_sub(window) })
                } else {
                    None
                },
                next: if *more {
                    Some(Action::Evidence { seq, section, from: next })
                } else {
                    None
                },
                actions: None,
                info,
            }
        },
    }
}

/// The menu of the parts of a request.
pub open spec fn section_items(seq: u64) -> Seq<(Seq<char>, Action)> {
    seq![
        (
            "Configuration"@,
            Action::Evidence { seq, section: Section::Configuration, from: 0 },
        ),
        ("System instructions"@, Action::Evidence { seq, section: Section::System, from: 0 }),
        ("Tools"@, Action::Evidence { seq, section: Section::Tools, from: 0 }),
        ("Content types and sizes"@, Action::RequestManifest(seq)),
    ]
}

pub fn section_menu(seq: u64) -> (r: Menu)
    ensures
        r@ == actions::menu_of("Request "@ + number::digits(seq as nat), section_items(seq)),
{
    let mut items = no_items();
    push_item(
        &mut items,
        "Configuration".to_owned(),
        Action::Evidence { seq, section: Section::Configuration, from: 0 },
    );
    push_item(
        &mut items,
        "System instructions".to_owned(),
        Action::Evidence { seq, section: Section::System, from: 0 },
    );
    push_item(
        &mut items,
        "Tools".to_owned(),
        Action::Evidence { seq, section: Section::Tools, from: 0 },
    );
    push_item(
        &mut items,
        "Content types and sizes".to_owned(),
        Action::RequestManifest(seq),
    );
    proof {
        assert(actions::items_of(items@) =~= section_items(seq));
    }
    make_menu(cat2("Request ", decimal(seq).as_str()), items)
}

/// A request of a page of history: its number, its model and its effort.
#[derive(Debug)]
pub struct Sent {
    pub seq: u64,
    pub model: String,
    pub effort: Option<String>,
}

/// The entries of requests, from the last one to the one at an index.
pub open spec fn requests_from(v: Seq<Sent>, i: int) -> Seq<(Seq<char>, Action)>
    decreases v.len() - i,
{
    if i < 0 || i >= v.len() {
        seq![]
    } else {
        requests_from(v, i + 1).push(
            (
                v[i].model@ + (match v[i].effort {
                    Some(e) => " / "@ + e@,
                    None => ""@,
                }) + " · request "@ + number::digits(v[i].seq as nat),
                Action::RequestSections(v[i].seq),
            ),
        )
    }
}

/// The menu of the requests of a page of history. `earlier` is the first record of the page, where
/// there are more before it.
pub fn requests_menu(v: &Vec<Sent>, earlier: Option<u64>) -> (r: Menu)
    ensures
        ({
            let items = requests_from(v@, 0);
            let all = match earlier {
                Some(seq) => items.push(("Earlier requests"@, Action::Requests(Some(seq)))),
                None => items,
            };
            r@ == actions::menu_of(
                if all.len() == 0 {
                    "No requests in this history page"@
                } else {
                    "Inspect request"@
                },
                all,
            )
        }),
{
    let mut items = no_items();
    let mut i: usize = v.len();
    while i > 0
        invariant
            i <= v@.len(),
            actions::items_of(items@) == requests_from(v@, i as int),
        decreases i,
    {
        i -= 1;
        let effort: String = match &v[i].effort {
            Some(e) => cat2(" / ", e.as_str()),
            None => "".to_owned(),
        };
        let label = cat4(
            v[i].model.as_str(),
            effort.as_str(),
            " · request ",
            decimal(v[i].seq).as_str(),
        );
        push_item(&mut items, label, Action::RequestSections(v[i].seq));
    }
    if let Some(seq) = earlier {
        push_item(
            &mut items,
            "Earlier requests".to_owned(),
            Action::Requests(Some(seq)),
        );
    }
    proof {
        assert(actions::items_of(items@).len() == items@.len());
    }
    let title: String = if items.len() == 0 {
        "No requests in this history page".to_owned()
    } else {
        "Inspect request".to_owned()
    };
    make_menu(title, items)
}

/// A kind of content of a request.
#[derive(Debug)]
pub struct Content {
    pub kind: String,
    pub count: u64,
    pub bytes: u64,
}

pub open spec fn content_line(c: Content) -> Seq<char> {
    c.kind@ + ": "@ + number::digits(c.count as nat) + " items · "@ + number::digits(
        c.bytes as nat,
    ) + " bytes"@
}

/// The first `n` lines, with line breaks between them.
pub open spec fn content_lines(v: Seq<Content>, n: int) -> Seq<char>
    decreases n,
{
    if n <= 0 {
        seq![]
    } else if n == 1 {
        content_line(v[0])
    } else {
        content_lines(v, n - 1) + "\n"@ + content_line(v[n - 1])
    }
}

/// What is shown of the contents of a request.
pub fn manifest_text(seq: u64, v: &Vec<Content>) -> (t: String)
    ensures
        t@ == "Request "@ + number::digits(seq as nat) + " · ordinary content\n"@ + content_lines(
            v@,
            v@.len() as int,
        ),
{
    let mut body = String::new();
    let mut i: usize = 0;
    proof {
        assert(body@ =~= content_lines(v@, 0));
    }
    while i < v.len()
        invariant
            i <= v@.len(),
            body@ == content_lines(v@, i as int),
        decreases v@.len() - i,
    {
        let mut line: String = cat4(
            v[i].kind.as_str(),
            ": ",
            decimal(v[i].count).as_str(),
            " items · ",
        );
        line.append(decimal(v[i].bytes).as_str());
        line.append(" bytes");
        if i == 0 {
            body = line;
        } else {
            body.append("\n");
            body.append(line.as_str());
        }
        i += 1;
    }
    cat4("Request ", decimal(seq).as_str(), " · ordinary content\n", body.as_str())
}

/// What is recorded at the place of a request.
#[derive(Debug)]
pub enum Recorded {
    /// Nothing, or something of another place.
    Missing,
    /// Something else than a request to a model.
    Other,
    /// A request, with the contents of what was sent.
    Contents(Vec<Content>),
    /// A request, with the reason why its contents are not there.
    Unavailable(String),
}

/// The contents of a request, as they are shown.
pub fn show_manifest(seq: u64, r: &Recorded) -> (t: Result<String, &'static str>)
    ensures
        match r {
            Recorded::Missing => t matches Err(s) && s@ == "Request source is unavailable"@,
            Recorded::Other => t matches Err(s) && s@ == "Source is not a model request"@,
            Recorded::Contents(v) => t matches Ok(s) && s@ == "Request "@ + number::digits(
                seq as nat,
            ) + " · ordinary content\n"@ + content_lines(v@, v@.len() as int),
            Recorded::Unavailable(reason) => t matches Ok(s) && s@
                == "Request evidence unavailable: "@ + reason@,
        },
{
    match r {
        Recorded::Missing => Err("Request source is unavailable"),
        Recorded::Other => Err("Source is not a model request"),
        Recorded::Contents(v) => Ok(manifest_text(seq, v)),
        Recorded::Unavailable(reason) => Ok(
            cat2("Request evidence unavailable: ", reason.as_str()),
        ),
    }
}

/// The thousandths of a number take three digits, whatever they are.
pub proof fn law_thousandths(n: nat)
    ensures
        thousandths(n).len() == 3,
        n % 1000 < 10 ==> thousandths(n)[0] == '0' && thousandths(n)[1] == '0',
        10 <= n % 1000 < 100 ==> thousandths(n)[0] == '0',
        number::value(thousandths(n)) == n % 1000,
{
    reveal_strlit("00");
    reveal_strlit("0");
    reveal_strlit("");
    let m = n % 1000;
    let a = (m / 100) % 10;
    let b = (m / 10) % 10;
    let c = m % 10;
    number::law_decimal_round_trip(m);
    reveal_with_fuel(number::digits, 4);
    reveal_with_fuel(number::value, 5);
    let t = thousandths(n);
    if m < 10 {
        assert(number::digits(m).len() == 1);
        assert(t.drop_last() =~= "00"@);
        assert(t.drop_last().drop_last() =~= "0"@);
        assert("0"@.drop_last() =~= Seq::<char>::empty());
        assert(number::digits(m).drop_last() =~= Seq::<char>::empty());
    } else if m < 100 {
        assert(number::digits(m).len() == 2);
        assert(t.drop_last() =~= "0"@ + number::digits(m / 10));
        assert(t.drop_last().drop_last() =~= "0"@);
        assert("0"@.drop_last() =~= Seq::<char>::empty());
        assert(number::digits(m).drop_last() =~= number::digits(m / 10));
        assert(number::digits(m / 10).drop_last() =~= Seq::<char>::empty());
    } else {
        assert(number::digits(m).len() == 3);
        assert(t =~= number::digits(m));
    }
}

/// What is said of requests and tokens, letter for letter.
pub proof fn law_usage_text(u: Usage)
    ensures
        usage_text(u) == number::digits(u.attempts as nat) + " requests · "@ + number::digits(
            u.failed as nat,
        ) + " failed\n"@ + number::digits(u.input as nat) + " input tokens · "@ + number::digits(
            u.output as nat,
        ) + " output tokens\nUsage reported for "@ + number::digits(u.reported as nat) + " of "@
            + number::digits(u.attempts as nat) + " requests\n"@,
{
}

/// A count that is missing is not told, and a count of nothing that is missing is not either.
pub proof fn law_optional_lines(label: Seq<char>, n: u64)
    ensures
        tokens_line(label, None).len() == 0,
        tokens_line(label, Some(n)) == label + ": "@ + number::digits(n as nat) + " tokens\n"@,
        missing_line(label, 0) == ""@,
        n > 0 ==> missing_line(label, n) == label + ": "@ + number::digits(n as nat)
            + " requests\n"@,
{
}

/// The conversations that were read are counted.
pub proof fn law_complete_members(v: Seq<Member>, n: int)
    requires
        0 <= n < v.len(),
    ensures
        complete_members(v, n + 1) == complete_members(v, n) + (if v[n].complete {
            1nat
        } else {
            0nat
        }),
        complete_members(v, 0) == 0,
{
}

/// A page of what was sent to a model goes back by a window or to the beginning, and on to where it
/// ends, in the same part of the same request.
pub proof fn law_evidence_pages(
    seq: u64,
    section: Section,
    start: u32,
    s: String,
    more: bool,
    window: u32,
)
    requires
        window > 0,
        start + text::size(s@) <= u32::MAX,
    ensures
        forall|e: Evidence|
            e is Page && e->start == start && e->text == s && e->more == more ==> {
                let d = #[trigger] evidence_detail(seq, section, e, window);
                &&& start >= window ==> d.previous == Some(
                    Action::Evidence { seq, section, from: (start - window) as u32 },
                )
                &&& 0 < start < window ==> d.previous == Some(
                    Action::Evidence { seq, section, from: 0 },
                )
                &&& start == 0 ==> d.previous is None
                &&& more ==> d.next == Some(
                    Action::Evidence { seq, section, from: (start + text::size(s@)) as u32 },
                )
                &&& !more ==> d.next is None
                &&& d.text == s@
            },
{
}

/// Each part of a request is read under its own name, from its beginning.
pub proof fn law_sections(seq: u64)
    ensures
        section_items(seq).len() == 4,
        section_items(seq)[0] == (
            "Configuration"@,
            Action::Evidence { seq, section: Section::Configuration, from: 0 },
        ),
        section_items(seq)[1] == (
            "System instructions"@,
            Action::Evidence { seq, section: Section::System, from: 0 },
        ),
        section_items(seq)[2] == (
            "Tools"@,
            Action::Evidence { seq, section: Section::Tools, from: 0 },
        ),
        section_items(seq)[3] == ("Content types and sizes"@, Action::RequestManifest(seq)),
        section_name(Section::Configuration) == "Configuration"@,
        section_name(Section::System) == "System"@,
        section_name(Section::Tools) == "Tools"@,
{
}

/// Requests are listed the last first, each with its own parts.
pub proof fn law_requests(v: Seq<Sent>, i: int)
    requires
        0 <= i < v.len(),
    ensures
        requests_from(v, i).len() == v.len() - i,
        requests_from(v, i).last().1 == Action::RequestSections(v[i].seq),
        requests_from(v, 0)[v.len() - 1 - i].1 == Action::RequestSections(v[i].seq),
{
    lemma_requests(v, 0, i);
    lemma_requests(v, i, i);
}

proof fn lemma_requests(v: Seq<Sent>, from: int, i: int)
    requires
        0 <= from <= v.len(),
    ensures
        requests_from(v, from).len() == v.len() - from,
        from <= i < v.len() ==> requests_from(v, from)[v.len() - 1 - i].1
            == Action::RequestSections(v[i].seq),
    decreases v.len() - from,
{
    if from < v.len() {
        lemma_requests(v, from + 1, i);
    }
}

/// Each session of a tree takes a line of its own, in order, with how far it was read, and says so
/// while it is still being read.
pub proof fn law_member_lines(v: Seq<Member>, m: Member, n: int)
    requires
        0 <= n < v.len(),
    ensures
        members_text(v, 0).len() == 0,
        members_text(v, n + 1) == members_text(v, n) + member_text(v[n]),
        m.complete && m.watermark is None ==> member_text(m) == m.session@ + ": "@ + number::digits(
            m.through as nat,
        ) + " / "@ + "not sampled"@ + ""@ + "\n"@,
        forall|w: u64|
            m.complete && m.watermark == Some(w) ==> member_text(m) == m.session@ + ": "@
                + number::digits(m.through as nat) + " / "@ + #[trigger] number::digits(w as nat)
                + ""@ + "\n"@,
        !m.complete && m.watermark is None ==> member_text(m) == m.session@ + ": "@
            + number::digits(m.through as nat) + " / "@ + "not sampled"@ + " · loading"@ + "\n"@,
{
}

/// What is shown of a tree that was read whole, without a configured cost: how many of its sessions
/// were read, its use of models and its sessions.
pub proof fn law_whole_tree(r: Tree)
    requires
        r.complete,
        r.membership_complete,
        r.usage.cost.totals@.len() == 0,
    ensures
        tree_text(r) == "Agent tree usage"@ + ""@ + "\n"@ + number::digits(
            complete_members(r.members@, r.members@.len() as int),
        ) + " / "@ + number::digits(r.members@.len()) + " sessions read"@ + ""@ + "\n"@
            + usage_text(r.usage)
            + "\nEach session has its own captured Fact watermark.\nMembership control cursor: "@
            + number::digits(r.control as nat) + "\n"@ + members_text(
            r.members@,
            r.members@.len() as int,
        ) + ""@,
{
}

/// What is shown of a tree that was not read whole says so at its beginning.
pub proof fn law_partial_tree(r: Tree)
    requires
        !(r.complete && r.membership_complete),
    ensures
        ("Agent tree usage"@ + " · partial"@ + "\n"@).is_prefix_of(tree_text(r)),
{
    let head = "Agent tree usage"@ + " · partial"@ + "\n"@;
    let t = tree_text(r);
    assert(t.take(head.len() as int) =~= head);
}

/// The lines of what a request held stand in order, one to each kind.
pub proof fn law_content_lines(v: Seq<Content>, n: int)
    requires
        0 < n < v.len(),
    ensures
        content_lines(v, 0).len() == 0,
        content_lines(v, 1) == v[0].kind@ + ": "@ + number::digits(v[0].count as nat)
            + " items · "@ + number::digits(v[0].bytes as nat) + " bytes"@,
        content_lines(v, n + 1) == content_lines(v, n) + "\n"@ + (v[n].kind@ + ": "@
            + number::digits(v[n].count as nat) + " items · "@ + number::digits(v[n].bytes as nat)
            + " bytes"@),
{
}

} // verus!
