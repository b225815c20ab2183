//! What is shown of the plugins.
use vstd::prelude::*;
use vstd::string::*;
use crate::actions;
use crate::actions::{
    make_menu, no_items, push_item, Action, Detail, DetailView, PluginsCommand,
};
use crate::display;
use crate::display::terminal_text;
use crate::number;
use crate::number::decimal;
use crate::text;
use crate::text::{cat2, cat3, cat4, characters, collect};

verus! {

/// The entries of a page.
pub const PAGE_ENTRIES: usize = 32;

/// The search service.
#[derive(Debug)]
pub struct Exa {
    /// Whether there is a key, in words, and whether it can be changed.
    pub credential: Option<(String, bool)>,
    pub notice: Option<String>,
}

/// A tool of a server.
#[derive(Debug)]
pub struct Tool {
    pub name: String,
    pub selected: bool,
}

/// A server of tools.
#[derive(Debug)]
pub struct Server {
    /// The number that its owner gives it, and its name.
    pub handle: u64,
    pub id: String,
    pub transport: String,
    pub ready: bool,
    pub error: Option<String>,
    pub epoch: u64,
    /// The digest of the catalog that was verified last.
    pub verified: Option<String>,
    pub tools: Vec<Tool>,
    pub enabled: bool,
    /// The slot of the key that it uses.
    pub slot: Option<String>,
}

/// What is known of the servers.
#[derive(Debug)]
pub struct Servers {
    pub ready: bool,
    pub error: Option<String>,
    pub pending: bool,
    pub list: Vec<Server>,
}

/// The servers of tools, as far as they were read.
#[derive(Debug)]
pub struct Mcp {
    pub status: Option<Servers>,
    pub notice: Option<String>,
}

/// A plugin.
#[derive(Debug)]
pub struct Plugin {
    pub instance: String,
    pub origin: String,
    pub reasons: String,
    /// The plugin that is wanted, unless it was removed.
    pub desired: Option<String>,
    pub enabled: bool,
    /// The state and the plugin that were seen.
    pub observed: Option<(String, String)>,
}

/// A page of plugins.
#[derive(Debug)]
pub struct Page {
    pub desired_revision: String,
    pub observed_revision: String,
    pub health: String,
    pub watcher: String,
    pub offset: usize,
    pub total: usize,
    pub availability: String,
    pub preset_source: String,
    pub digest: Option<String>,
    pub plugins: Vec<Plugin>,
    pub next_offset: Option<usize>,
}

/// What is known of the plugins.
#[derive(Debug)]
pub struct PluginsView {
    /// The number of the ticket that pages are read with.
    pub ticket: u64,
    /// Whether the profiles can be managed.
    pub profiles: bool,
    /// Whether the conversation has a generation of its own.
    pub session: bool,
    pub target: String,
    pub guidance: Vec<String>,
    pub exa: Option<Exa>,
    pub mcp: Option<Mcp>,
    pub page: Option<Page>,
    pub diagnostic: Option<String>,
}

/// The first `n` lines, each with its end.
pub open spec fn lines(v: Seq<String>, n: int) -> Seq<char>
    decreases n,
{
    if n <= 0 {
        seq![]
    } else {
        lines(v, n - 1) + v[n - 1]@ + "\n"@
    }
}

/// A text with its end of line, if there is one.
pub open spec fn noted(before: Seq<char>, s: Option<String>) -> Seq<char> {
    match s {
        Some(s) => before + s@ + "\n"@,
        None => seq![],
    }
}

pub open spec fn exa_text(e: Exa) -> Seq<char> {
    "\nWeb retrieval · settings: rsi.retrieval\nweb_fetch and web_search start disabled. Enable them for new Sessions.\nHistory displays recorded sources without fetching them again.\n"@
        + (match e.credential {
        Some((availability, editable)) => "Exa credential · "@ + availability@ + " · "@ + (
        if editable {
            "editable"@
        } else {
            "read only"@
        }) + "\n"@,
        None => seq![],
    }) + noted(seq![], e.notice)
}

/// How a server or a catalog is: ready, or why not.
pub open spec fn readiness(ready: bool, error: Option<String>) -> Seq<char> {
    if ready {
        "ready"@
    } else {
        match error {
            Some(e) => e@,
            None => "unavailable"@,
        }
    }
}

pub open spec fn tools_text(v: Seq<Tool>, n: int) -> Seq<char>
    decreases n,
{
    if n <= 0 {
        seq![]
    } else {
        tools_text(v, n - 1) + "  "@ + (if v[n - 1].selected {
            "[selected]"@
        } else {
            "[available]"@
        }) + " "@ + v[n - 1].name@ + "\n"@
    }
}

/// The first characters of a digest.
pub open spec fn short(s: Seq<char>) -> Seq<char> {
    if s.len() <= 12 {
        s
    } else {
        s.take(12)
    }
}

pub open spec fn server_text(s: Server) -> Seq<char> {
    "\n"@ + s.id@ + " · "@ + s.transport@ + " · "@ + readiness(s.ready, s.error) + " · epoch "@
        + number::digits(s.epoch as nat) + "\n"@ + (match s.verified {
        Some(d) => "  Last verified: "@ + short(d@) + "\n"@,
        None => seq![],
    }) + tools_text(s.tools@, s.tools@.len() as int)
}

pub open spec fn servers_text(v: Seq<Server>, n: int) -> Seq<char>
    decreases n,
{
    if n <= 0 {
        seq![]
    } else {
        servers_text(v, n - 1) + server_text(v[n - 1])
    }
}

pub open spec fn mcp_text(m: Mcp) -> Seq<char> {
    "\nMCP · HTTP settings: rsi.mcp; stdio: Local Host Profile\nNew Sessions use verified catalogs. Existing Sessions retain saved schemas.\n"@
        + (match m.status {
        Some(s) => "New catalog: "@ + readiness(s.ready, s.error) + " · Saved settings: "@ + (
        if s.pending {
            "apply needed"@
        } else {
            "applied"@
        }) + "\n"@ + servers_text(s.list@, s.list@.len() as int),
        None => seq![],
    }) + noted("\nMCP: "@, m.notice)
}

pub open spec fn plugin_text(p: Plugin) -> Seq<char> {
    "  Origin: "@ + p.origin@ + " · Reasons: "@ + p.reasons@ + "\n\n"@ + p.instance@
        + "\n  Desired: "@ + (match p.desired {
        Some(s) => s@,
        None => "Removed"@,
    }) + " · "@ + (if p.enabled {
        "enabled"@
    } else {
        "disabled"@
    }) + "\n  Observed: "@ + (match p.observed {
        Some((state, plugin)) => state@ + " · "@ + plugin@,
        None => "Not observed"@,
    }) + "\n"@
}

pub open spec fn plugins_text(v: Seq<Plugin>, n: int) -> Seq<char>
    decreases n,
{
    if n <= 0 {
        seq![]
    } else {
        plugins_text(v, n - 1) + plugin_text(v[n - 1])
    }
}

/// The number of the first entry of a page, or of the one before where it is empty.
pub open spec fn first_entry(p: Page) -> int {
    p.offset + (if p.plugins@.len() > 0 {
        1int
    } else {
        0
    })
}

pub open spec fn page_text(p: Page) -> Seq<char> {
    "\nDesired "@ + p.desired_revision@ + " · Observed "@ + p.observed_revision@ + "\nProfile "@
        + p.health@ + " · Watcher "@ + p.watcher@ + "\nEntries "@ + number::digits(
        first_entry(p) as nat,
    ) + "–"@ + number::digits((p.offset + p.plugins@.len()) as nat) + " of "@ + number::digits(
        p.total as nat,
    ) + "\n\nAvailability: "@ + p.availability@ + " · Preset root: "@ + p.preset_source@ + "\n"@
        + noted("Source digest: "@, p.digest) + plugins_text(p.plugins@, p.plugins@.len() as int)
}

/// Everything that is said of the plugins.
pub open spec fn full_text(v: PluginsView) -> Seq<char> {
    "Plugins\nSource: "@ + v.target@ + "\n"@ + lines(v.guidance@, v.guidance@.len() as int) + (
    match v.exa {
        Some(e) => exa_text(e),
        None => seq![],
    }) + (match v.mcp {
        Some(m) => mcp_text(m),
        None => seq![],
    }) + (match v.page {
        Some(p) => page_text(p),
        None => seq![],
    }) + (match v.diagnostic {
        Some(d) => "\nUnavailable: "@ + d@,
        None => seq![],
    })
}

/// What can be done with the first `n` servers.
pub open spec fn server_items(v: Seq<Server>, n: int) -> Seq<(Seq<char>, Action)>
    decreases n,
{
    if n <= 0 {
        seq![]
    } else {
        let s = v[n - 1];
        let i = s.handle;
        let before = server_items(v, n - 1);
        let a = if s.enabled {
            before.push(
                (
                    "Refresh MCP "@ + s.id@,
                    Action::Plugins(PluginsCommand::McpRefresh(Some(i))),
                ),
            )
        } else {
            before
        };
        match s.slot {
            Some(slot) => a.push(
                ("Credential for "@ + s.id@ + " · "@ + slot@, Action::McpCredential(i)),
            ).push(
                (
                    "Remove credential for "@ + s.id@,
                    Action::Plugins(PluginsCommand::McpCredentialUnset(i)),
                ),
            ),
            None => a,
        }
    }
}

/// Everything that can be done with the plugins.
pub open spec fn all_items(v: PluginsView) -> Seq<(Seq<char>, Action)> {
    let a = seq![("Refresh plugin status"@, Action::Plugins(PluginsCommand::Refresh))];
    let b = if v.profiles {
        a.push(("Manage Host Profiles"@, Action::Profiles))
    } else {
        a
    };
    let c = b.push(("Host plugins"@, Action::Plugins(PluginsCommand::SelectHost))).push(
        ("Current preset configuration"@, Action::Plugins(PluginsCommand::SelectPreset)),
    );
    let d = if v.session {
        c.push(("Session resident generation"@, Action::Plugins(PluginsCommand::SelectSession)))
    } else {
        c
    };
    let e = if v.exa is Some {
        d.push(("Read Exa credential status"@, Action::Plugins(PluginsCommand::ExaStatus))).push(
            ("Set Exa credential…"@, Action::ExaCredential),
        ).push(("Remove Exa credential"@, Action::Plugins(PluginsCommand::ExaUnset)))
    } else {
        d
    };
    match v.mcp {
        Some(m) => {
            let f = e.push(("Read MCP status"@, Action::Plugins(PluginsCommand::McpStatus))).push(
                (
                    "Apply and refresh HTTP MCP endpoints"@,
                    Action::Plugins(PluginsCommand::McpRefresh(None)),
                ),
            );
            match m.status {
                Some(s) => f + server_items(s.list@, s.list@.len() as int),
                None => f,
            }
        },
        None => e,
    }
}

/// The number of entries that a page goes back by.
pub open spec fn page_before(offset: usize) -> usize {
    if offset > PAGE_ENTRIES {
        (offset - PAGE_ENTRIES) as usize
    } else {
        0
    }
}

/// What is shown of the plugins.
pub open spec fn plugins_detail(v: PluginsView) -> DetailView {
    DetailView {
        text: display::shown_text(full_text(v)),
        previous: match v.page {
            Some(p) => if p.offset > 0 {
                Some(
                    Action::Plugins(
                        PluginsCommand::Page { ticket: v.ticket, offset: page_before(p.offset) },
                    ),
                )
            } else {
                None
            },
            None => None,
        },
        next: match v.page {
            Some(p) => match p.next_offset {
                Some(offset) => Some(
                    Action::Plugins(PluginsCommand::Page { ticket: v.ticket, offset }),
                ),
                None => None,
            },
            None => None,
        },
        actions: Some(actions::menu_of("Plugins"@, all_items(v))),
        info: "←/→ pages · ↑/↓ scroll · Enter actions · Esc returns to draft"@,
    }
}

fn put_lines(t: &mut String, v: &Vec<String>)
    ensures
        final(t)@ == old(t)@ + lines(v@, v@.len() as int),
{
    let ghost head = t@;
    let mut i: usize = 0;
    proof {
        assert(head =~= head + lines(v@, 0));
    }
    while i < v.len()
        invariant
            i <= v@.len(),
            t@ == head + lines(v@, i as int),
        decreases v@.len() - i,
    {
        t.append(v[i].as_str());
        t.append("\n");
        proof {
            assert(t@ =~= head + lines(v@, i as int + 1));
        }
        i += 1;
    }
}

fn put_note(t: &mut String, before: &str, s: &Option<String>)
    ensures
        final(t)@ == old(t)@ + noted(before@, *s),
{
    let ghost head = t@;
    if let Some(s) = s {
        t.append(before);
        t.append(s.as_str());
        t.append("\n");
    }
    proof {
        assert(t@ =~= head + noted(before@, *s));
    }
}

fn put_exa(t: &mut String, e: &Exa)
    ensures
        final(t)@ == old(t)@ + exa_text(*e),
{
    let ghost head = t@;
    t.append(
        "\nWeb retrieval · settings: rsi.retrieval\nweb_fetch and web_search start disabled. Enable them for new Sessions.\nHistory displays recorded sources without fetching them again.\n",
    );
    if let Some((availability, editable)) = &e.credential {
        t.append("Exa credential · ");
        t.append(availability.as_str());
        t.append(" · ");
        t.append(
            if *editable {
                "editable"
            } else {
                "read only"
            },
        );
        t.append("\n");
    }
    proof {
        reveal_strlit("");
        assert(""@ =~= Seq::<char>::empty());
    }
    put_note(t, "", &e.notice);
    proof {
        assert(t@ =~= head + exa_text(*e));
    }
}

fn put_readiness(t: &mut String, ready: bool, error: &Option<String>)
    ensures
        final(t)@ == old(t)@ + readiness(ready, *error),
{
    if ready {
        t.append("ready");
    } else {
        match error {
            Some(e) => {
                t.append(e.as_str());
            },
            None => {
                t.append("unavailable");
            },
        }
    }
}

fn put_tools(t: &mut String, v: &Vec<Tool>)
    ensures
        final(t)@ == old(t)@ + tools_text(v@, v@.len() as int),
{
    let ghost head = t@;
    let mut i: usize = 0;
    proof {
        assert(head =~= head + tools_text(v@, 0));
    }
    while i < v.len()
        invariant
            i <= v@.len(),
            t@ == head + tools_text(v@, i as int),
        decreases v@.len() - i,
    {
        t.append("  ");
        t.append(
            if v[i].selected {
                "[selected]"
            } else {
                "[available]"
            },
        );
        t.append(" ");
        t.append(v[i].name.as_str());
        t.append("\n");
        proof {
            assert(t@ =~= head + tools_text(v@, i as int + 1));
        }
        i += 1;
    }
}

fn shorten(s: &str) -> (r: String)
    ensures
        r@ == short(s@),
{
    let v = characters(s);
    let end: usize = if v.len() <= 12 {
        v.len()
    } else {
        12
    };
    let r = collect(v.as_slice(), 0, end);
    proof {
        assert(v@.subrange(0, end as int) =~= short(s@));
    }
    r
}

fn put_server(t: &mut String, s: &Server)
    ensures
        final(t)@ == old(t)@ + server_text(*s),
{
    let ghost head = t@;
    t.append("\n");
    t.append(s.id.as_str());
    t.append(" · ");
    t.append(s.transport.as_str());
    t.append(" · ");
    put_readiness(t, s.ready, &s.error);
    t.append(" · epoch ");
    t.append(decimal(s.epoch).as_str());
    t.append("\n");
    if let Some(d) = &s.verified {
        t.append("  Last verified: ");
        t.append(shorten(d.as_str()).as_str());
        t.append("\n");
    }
    put_tools(t, &s.tools);
    proof {
        assert(t@ =~= head + server_text(*s));
    }
}

fn put_servers(t: &mut String, v: &Vec<Server>)
    ensures
        final(t)@ == old(t)@ + servers_text(v@, v@.len() as int),
{
    let ghost head = t@;
    let mut i: usize = 0;
    proof {
        assert(head =~= head + servers_text(v@, 0));
    }
    while i < v.len()
        invariant
            i <= v@.len(),
            t@ == head + servers_text(v@, i as int),
        decreases v@.len() - i,
    {
        put_server(t, &v[i]);
        proof {
            assert(t@ =~= head + servers_text(v@, i as int + 1));
        }
        i += 1;
    }
}

fn put_mcp(t: &mut String, m: &Mcp)
    ensures
        final(t)@ == old(t)@ + mcp_text(*m),
{
    let ghost head = t@;
    t.append(
        "\nMCP · HTTP settings: rsi.mcp; stdio: Local Host Profile\nNew Sessions use verified catalogs. Existing Sessions retain saved schemas.\n",
    );
    if let Some(s) = &m.status {
        t.append("New catalog: ");
        put_readiness(t, s.ready, &s.error);
        t.append(" · Saved settings: ");
        t.append(
            if s.pending {
                "apply needed"
            } else {
                "applied"
            },
        );
        t.append("\n");
        put_servers(t, &s.list);
    }
    put_note(t, "\nMCP: ", &m.notice);
    proof {
        assert(t@ =~= head + mcp_text(*m));
    }
}

fn make_plugin(p: &Plugin) -> (t: String)
    ensures
        t@ == plugin_text(*p),
{
    let desired: &str = match &p.desired {
        Some(s) => s.as_str(),
        None => "Removed",
    };
    let observed: String = match &p.observed {
        Some((state, plugin)) => cat3(state.as_str(), " · ", plugin.as_str()),
        None => "Not observed".to_owned(),
    };
    let mut t: String = "  Origin: ".to_owned();
    t.append(p.origin.as_str());
    t.append(" · Reasons: ");
    t.append(p.reasons.as_str());
    t.append("\n\n");
    t.append(p.instance.as_str());
    t.append("\n  Desired: ");
    t.append(desired);
    t.append(" · ");
    t.append(
        if p.enabled {
            "enabled"
        } else {
            "disabled"
        },
    );
    t.append("\n  Observed: ");
    t.append(observed.as_str());
    t.append("\n");
    t
}

fn put_plugins(t: &mut String, v: &Vec<Plugin>)
    ensures
        final(t)@ == old(t)@ + plugins_text(v@, v@.len() as int),
{
    let ghost head = t@;
    let mut i: usize = 0;
    proof {
        assert(head =~= head + plugins_text(v@, 0));
    }
    while i < v.len()
        invariant
            i <= v@.len(),
            t@ == head + plugins_text(v@, i as int),
        decreases v@.len() - i,
    {
        t.append(make_plugin(&v[i]).as_str());
        proof {
            assert(t@ =~= head + plugins_text(v@, i as int + 1));
        }
        i += 1;
    }
}

fn make_page(p: &Page) -> (t: String)
    requires
        p.offset + p.plugins@.len() <= usize::MAX,
    ensures
        t@ == page_text(*p),
{
    let from: usize = if p.plugins.len() > 0 {
        p.offset + 1
    } else {
        p.offset
    };
    let mut t: String = "\nDesired ".to_owned();
    t.append(p.desired_revision.as_str());
    t.append(" · Observed ");
    t.append(p.observed_revision.as_str());
    t.append("\nProfile ");
    t.append(p.health.as_str());
    t.append(" · Watcher ");
    t.append(p.watcher.as_str());
    t.append("\nEntries ");
    t.append(decimal(from as u64).as_str());
    t.append("–");
    t.append(decimal((p.offset + p.plugins.len()) as u64).as_str());
    t.append(" of ");
    t.append(decimal(p.total as u64).as_str());
    t.append("\n\nAvailability: ");
    t.append(p.availability.as_str());
    t.append(" · Preset root: ");
    t.append(p.preset_source.as_str());
    t.append("\n");
    put_note(&mut t, "Source digest: ", &p.digest);
    put_plugins(&mut t, &p.plugins);
    t
}

fn make_text(v: &PluginsView) -> (t: String)
    requires
        v.page matches Some(p) ==> p.offset + p.plugins@.len() <= usize::MAX,
    ensures
        t@ == full_text(*v),
{
    let mut t: String = cat3("Plugins\nSource: ", v.target.as_str(), "\n");
    put_lines(&mut t, &v.guidance);
    if let Some(e) = &v.exa {
        put_exa(&mut t, e);
    }
    if let Some(m) = &v.mcp {
        put_mcp(&mut t, m);
    }
    if let Some(p) = &v.page {
        t.append(make_page(p).as_str());
    }
    if let Some(d) = &v.diagnostic {
        t.append("\nUnavailable: ");
        t.append(d.as_str());
    }
    proof {
        assert(t@ =~= full_text(*v));
    }
    t
}

fn push_servers(items: &mut Vec<(String, Action)>, v: &Vec<Server>)
    ensures
        actions::items_of(final(items)@) == actions::items_of(old(items)@) + server_items(
            v@,
            v@.len() as int,
        ),
{
    let ghost head = actions::items_of(items@);
    let mut i: usize = 0;
    proof {
        assert(head =~= head + server_items(v@, 0));
    }
    while i < v.len()
        invariant
            i <= v@.len(),
            actions::items_of(items@) == head + server_items(v@, i as int),
        decreases v@.len() - i,
    {
        if v[i].enabled {
            push_item(
                items,
                cat2("Refresh MCP ", v[i].id.as_str()),
                Action::Plugins(PluginsCommand::McpRefresh(Some(v[i].handle))),
            );
        }
        if let Some(slot) = &v[i].slot {
            push_item(
                items,
                cat4("Credential for ", v[i].id.as_str(), " · ", slot.as_str()),
                Action::McpCredential(v[i].handle),
            );
            push_item(
                items,
                cat2("Remove credential for ", v[i].id.as_str()),
                Action::Plugins(PluginsCommand::McpCredentialUnset(v[i].handle)),
            );
        }
        proof {
            assert(actions::items_of(items@) =~= head + server_items(v@, i as int + 1));
        }
        i += 1;
    }
}

fn make_items(v: &PluginsView) -> (items: Vec<(String, Action)>)
    ensures
        actions::items_of(items@) == all_items(*v),
{
    let mut items = no_items();
    push_item(
        &mut items,
        "Refresh plugin status".to_owned(),
        Action::Plugins(PluginsCommand::Refresh),
    );
    proof {
        assert(actions::items_of(items@) =~= seq![
            ("Refresh plugin status"@, Action::Plugins(PluginsCommand::Refresh)),
        ]);
    }
    if v.profiles {
        push_item(&mut items, "Manage Host Profiles".to_owned(), Action::Profiles);
    }
    push_item(
        &mut items,
        "Host plugins".to_owned(),
        Action::Plugins(PluginsCommand::SelectHost),
    );
    push_item(
        &mut items,
        "Current preset configuration".to_owned(),
        Action::Plugins(PluginsCommand::SelectPreset),
    );
    if v.session {
        push_item(
            &mut items,
            "Session resident generation".to_owned(),
            Action::Plugins(PluginsCommand::SelectSession),
        );
    }
    if v.exa.is_some() {
        push_item(
            &mut items,
            "Read Exa credential status".to_owned(),
            Action::Plugins(PluginsCommand::ExaStatus),
        );
        push_item(&mut items, "Set Exa credential…".to_owned(), Action::ExaCredential);
        push_item(
            &mut items,
            "Remove Exa credential".to_owned(),
            Action::Plugins(PluginsCommand::ExaUnset),
        );
    }
    if let Some(m) = &v.mcp {
        push_item(
            &mut items,
            "Read MCP status".to_owned(),
            Action::Plugins(PluginsCommand::McpStatus),
        );
        push_item(
            &mut items,
            "Apply and refresh HTTP MCP endpoints".to_owned(),
            Action::Plugins(PluginsCommand::McpRefresh(None)),
        );
        if let Some(s) = &m.status {
            push_servers(&mut items, &s.list);
        }
    }
    items
}

/// Shows the plugins.
pub fn show_plugins(v: &PluginsView) -> (d: Detail)
    requires
        v.page matches Some(p) ==> p.offset + p.plugins@.len() <= usize::MAX,
    ensures
        d@ == plugins_detail(*v),
{
    let t = make_text(v);
    let items = make_items(v);
    Detail {
        text: terminal_text(t.as_str()),
        previous: match &v.page {
            Some(p) => if p.offset > 0 {
                Some(
                    Action::Plugins(
                        PluginsCommand::Page {
                            ticket: v.ticket,
                            offset: p.offset.saturating_sub(PAGE_ENTRIES),
                        },
                    ),
                )
            } else {
                None
            },
            None => None,
        },
        next: match &v.page {
            Some(p) => match p.next_offset {
                Some(offset) => Some(
                    Action::Plugins(PluginsCommand::Page { ticket: v.ticket, offset }),
                ),
                None => None,
            },
            None => None,
        },
        actions: Some(make_menu("Plugins".to_owned(), items)),
        info: "←/→ pages · ↑/↓ scroll · Enter actions · Esc returns to draft".to_owned(),
    }
}

/// What is told while the state of the plugins is read, or that this connection has none.
pub fn plugins_request(available: bool) -> (r: Result<&'static str, &'static str>)
    ensures
        if available {
            r matches Ok(s) && s@ == "Reading plugin status…"@
        } else {
            r matches Err(s) && s@ == "Plugin status is unavailable on this connection"@
        },
{
    if available {
        Ok("Reading plugin status…")
    } else {
        Err("Plugin status is unavailable on this connection")
    }
}

/// A server or a catalog that is ready says so, and any other says why not.
pub proof fn law_readiness(error: Option<String>)
    ensures
        readiness(true, error) == "ready"@,
        error matches Some(e) ==> readiness(false, error) == e@,
        error is None ==> readiness(false, error) == "unavailable"@,
{
}

/// A tool that is selected is told apart from one that is available, a line each.
pub proof fn law_tools(v: Seq<Tool>, n: int)
    requires
        0 <= n < v.len(),
    ensures
        v[n].selected ==> tools_text(v, n + 1) == tools_text(v, n) + "  "@ + "[selected]"@ + " "@
            + v[n].name@ + "\n"@,
        !v[n].selected ==> tools_text(v, n + 1) == tools_text(v, n) + "  "@ + "[available]"@ + " "@
            + v[n].name@ + "\n"@,
        tools_text(v, 0).len() == 0,
{
}

/// A digest is shown by its first twelve characters.
pub proof fn law_short(s: Seq<char>)
    ensures
        short(s).len() <= 12,
        s.len() <= 12 ==> short(s) == s,
        s.len() > 12 ==> short(s) == s.take(12),
{
}

/// What can be done with a server: it is refreshed where it is enabled, and a credential is set or
/// removed where it takes one, each for that server.
pub proof fn law_server_items(v: Seq<Server>, n: int)
    requires
        0 <= n < v.len(),
    ensures
        ({
            let s = v[n];
            let before = server_items(v, n);
            let refresh = (
                "Refresh MCP "@ + s.id@,
                Action::Plugins(PluginsCommand::McpRefresh(Some(s.handle))),
            );
            &&& !s.enabled && s.slot is None ==> server_items(v, n + 1) == before
            &&& s.enabled && s.slot is None ==> server_items(v, n + 1) == before.push(refresh)
            &&& s.slot matches Some(slot) ==> {
                let items = server_items(v, n + 1);
                &&& items.last() == (
                    "Remove credential for "@ + s.id@,
                    Action::Plugins(PluginsCommand::McpCredentialUnset(s.handle)),
                )
                &&& items[items.len() - 2] == (
                    "Credential for "@ + s.id@ + " · "@ + slot@,
                    Action::McpCredential(s.handle),
                )
                &&& s.enabled ==> items.len() == before.len() + 3 && items[items.len() - 3]
                    == refresh
                &&& !s.enabled ==> items.len() == before.len() + 2
            }
        }),
{
}

/// What can always be done with the plugins, and what only where there are profiles, a conversation,
/// a search service or servers.
pub proof fn law_plugin_items(v: PluginsView)
    ensures
        all_items(v)[0] == ("Refresh plugin status"@, Action::Plugins(PluginsCommand::Refresh)),
        v.exa is None && v.mcp is None ==> {
            let items = all_items(v);
            &&& items.contains(("Host plugins"@, Action::Plugins(PluginsCommand::SelectHost)))
            &&& items.contains(
                ("Current preset configuration"@, Action::Plugins(PluginsCommand::SelectPreset)),
            )
            &&& v.session ==> items.last() == (
                "Session resident generation"@,
                Action::Plugins(PluginsCommand::SelectSession),
            )
            &&& v.profiles ==> items[1] == ("Manage Host Profiles"@, Action::Profiles)
            &&& items.len() == 3 + (if v.profiles {
                1int
            } else {
                0int
            }) + (if v.session {
                1int
            } else {
                0int
            })
        },
        v.exa is Some && v.mcp is None ==> {
            let items = all_items(v);
            &&& items.last() == (
                "Remove Exa credential"@,
                Action::Plugins(PluginsCommand::ExaUnset),
            )
            &&& items[items.len() - 2] == ("Set Exa credential…"@, Action::ExaCredential)
            &&& items[items.len() - 3] == (
                "Read Exa credential status"@,
                Action::Plugins(PluginsCommand::ExaStatus),
            )
        },
{
    let items = all_items(v);
    if v.exa is None && v.mcp is None {
        let k: int = if v.profiles {
            2
        } else {
            1
        };
        assert(items[k] == ("Host plugins"@, Action::Plugins(PluginsCommand::SelectHost)));
        assert(items[k + 1] == (
            "Current preset configuration"@,
            Action::Plugins(PluginsCommand::SelectPreset),
        ));
    }
}

/// The pages of the plugins go back by 32 entries or to the beginning, and on where there is more,
/// with the ticket of what is shown.
pub proof fn law_plugin_pages(v: PluginsView, p: Page)
    requires
        v.page == Some(p),
    ensures
        ({
            let turn = |offset: usize|
                Action::Plugins(PluginsCommand::Page { ticket: v.ticket, offset });
            &&& p.offset >= 32 ==> plugins_detail(v).previous == Some(turn((p.offset - 32) as usize))
            &&& 0 < p.offset < 32 ==> plugins_detail(v).previous == Some(turn(0))
            &&& p.offset == 0 ==> plugins_detail(v).previous is None
            &&& p.next_offset matches Some(n) ==> plugins_detail(v).next == Some(turn(n))
            &&& p.next_offset is None ==> plugins_detail(v).next is None
        }),
        p.plugins@.len() > 0 ==> first_entry(p) == p.offset + 1,
        p.plugins@.len() == 0 ==> first_entry(p) == p.offset,
{
}

/// What is said of a plugin: whether it is enabled, what is desired of it and what is observed.
pub proof fn law_plugin_text(p: Plugin, state: String, plugin: String, desired: String)
    requires
        p.observed == Some((state, plugin)),
        p.desired == Some(desired),
    ensures
        p.enabled ==> plugin_text(p) == "  Origin: "@ + p.origin@ + " · Reasons: "@ + p.reasons@
            + "\n\n"@ + p.instance@ + "\n  Desired: "@ + desired@ + " · "@ + "enabled"@
            + "\n  Observed: "@ + (state@ + " · "@ + plugin@) + "\n"@,
        !p.enabled ==> plugin_text(p) == "  Origin: "@ + p.origin@ + " · Reasons: "@ + p.reasons@
            + "\n\n"@ + p.instance@ + "\n  Desired: "@ + desired@ + " · "@ + "disabled"@
            + "\n  Observed: "@ + (state@ + " · "@ + plugin@) + "\n"@,
{
}

} // verus!
