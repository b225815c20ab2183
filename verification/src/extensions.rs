//! What the extensions of a conversation show, and the commands it knows.
use vstd::prelude::*;
use vstd::string::*;
use crate::actions;
use crate::actions::{make_menu, no_items, push_item, Action, Menu, MenuView};
use crate::text::{cat2, cat3, cat4, cat5};

verus! {

/// What one extension tells.
#[derive(Debug)]
pub struct Entry {
    pub handle: u64,
    pub producer: String,
    /// What it shows, or why it failed.
    pub shown: Result<String, String>,
}

/// What the extensions tell, at a point of the record.
#[derive(Debug)]
pub struct Projections {
    pub cursor: String,
    pub entries: Vec<Entry>,
}

/// What of the extensions is open.
#[derive(Clone, Copy, Debug, PartialEq, Eq, Structural)]
pub enum ExtensionView {
    Menu,
    Detail(u64),
}

/// What is opened anew when the extensions tell something else. What was closed stays so.
pub fn refreshed(view: Option<ExtensionView>, menu: bool, detail: bool) -> (r: Option<
    ExtensionView,
>)
    ensures
        r == (match view {
            Some(ExtensionView::Menu) if menu => view,
            Some(ExtensionView::Detail(_)) if detail => view,
            _ => None,
        }),
{
    match view {
        Some(ExtensionView::Menu) => if menu {
            view
        } else {
            None
        },
        Some(ExtensionView::Detail(_)) => if detail {
            view
        } else {
            None
        },
        None => None,
    }
}

/// The first `n` extensions.
pub open spec fn entry_items(v: Seq<Entry>, n: int) -> Seq<(Seq<char>, Action)>
    decreases n,
{
    if n <= 0 {
        seq![]
    } else {
        entry_items(v, n - 1).push(
            (
                if v[n - 1].shown is Err {
                    v[n - 1].producer@ + " · producer failed"@
                } else {
                    v[n - 1].producer@
                },
                Action::Extension(v[n - 1].handle),
            ),
        )
    }
}

/// What the menu of the extensions is called.
pub open spec fn extension_title(p: Projections, notice: Seq<char>) -> Seq<char> {
    if notice.len() == 0 {
        "Extension state · "@ + p.cursor@
    } else {
        "Extension state · "@ + p.cursor@ + " · unavailable, last snapshot"@
    }
}

/// The menu of the extensions. `notice` says why nothing newer is known.
pub fn extension_menu(p: &Option<Projections>, notice: &str) -> (r: Menu)
    ensures
        r@ == (match p {
            None => actions::menu_of("Extension state · waiting for baseline"@, seq![]),
            Some(p) => actions::menu_of(
                extension_title(*p, notice@),
                entry_items(p.entries@, p.entries@.len() as int),
            ),
        }),
{
    match p {
        None => make_menu("Extension state · waiting for baseline".to_owned(), no_items()),
        Some(p) => {
            let mut items = no_items();
            let mut i: usize = 0;
            while i < p.entries.len()
                invariant
                    i <= p.entries@.len(),
                    actions::items_of(items@) == entry_items(p.entries@, i as int),
                decreases p.entries@.len() - i,
            {
                let label: String = match &p.entries[i].shown {
                    Ok(_) => p.entries[i].producer.clone(),
                    Err(_) => cat2(p.entries[i].producer.as_str(), " · producer failed"),
                };
                push_item(&mut items, label, Action::Extension(p.entries[i].handle));
                i += 1;
            }
            let title: String = if notice.is_empty() {
                cat2("Extension state · ", p.cursor.as_str())
            } else {
                cat3("Extension state · ", p.cursor.as_str(), " · unavailable, last snapshot")
            };
            make_menu(title, items)
        },
    }
}

/// What one extension shows, with the point of the record.
pub open spec fn entry_text(e: Entry, cursor: Seq<char>, notice: Seq<char>) -> Seq<char> {
    e.producer@ + " · "@ + cursor + "\n"@ + notice + "\n\n"@ + (match e.shown {
        Ok(s) => s@,
        Err(problem) => "Producer failed: "@ + problem@,
    })
}

/// The first extension with a handle.
pub open spec fn entry_at(v: Seq<Entry>, handle: u64) -> Option<Entry>
    decreases v.len(),
{
    if v.len() == 0 {
        None
    } else if v[0].handle == handle {
        Some(v[0])
    } else {
        entry_at(v.drop_first(), handle)
    }
}

/// What one extension shows, if it is known.
pub fn extension_detail(p: &Option<Projections>, handle: u64, notice: &str) -> (r: Option<String>)
    ensures
        match p {
            None => r is None,
            Some(p) => match entry_at(p.entries@, handle) {
                None => r is None,
                Some(e) => r matches Some(s) && s@ == entry_text(e, p.cursor@, notice@),
            },
        },
{
    match p {
        None => None,
        Some(q) => {
            let mut i: usize = 0;
            proof {
                assert(q.entries@.skip(0) =~= q.entries@);
            }
            while i < q.entries.len()
                invariant
                    i <= q.entries@.len(),
                    *p == Some(*q),
                    entry_at(q.entries@.skip(i as int), handle) == entry_at(q.entries@, handle),
                decreases q.entries@.len() - i,
            {
                if q.entries[i].handle == handle {
                    let value: String = match &q.entries[i].shown {
                        Ok(s) => s.clone(),
                        Err(problem) => cat2("Producer failed: ", problem.as_str()),
                    };
                    let head = cat5(
                        q.entries[i].producer.as_str(),
                        " · ",
                        q.cursor.as_str(),
                        "\n",
                        notice,
                    );
                    return Some(cat3(head.as_str(), "\n\n", value.as_str()));
                }
                proof {
                    assert(q.entries@.skip(i as int).drop_first() =~= q.entries@.skip(
                        i as int + 1,
                    ));
                }
                i += 1;
            }
            None
        },
    }
}

/// A command of a conversation.
#[derive(Debug)]
pub struct Named {
    pub handle: u64,
    pub name: String,
    pub description: String,
}

/// The first `n` commands.
pub open spec fn command_items(v: Seq<Named>, n: int) -> Seq<(Seq<char>, Action)>
    decreases n,
{
    if n <= 0 {
        seq![]
    } else {
        command_items(v, n - 1).push(
            (
                "/"@ + v[n - 1].name@ + " · "@ + v[n - 1].description@,
                Action::CommandHelp(v[n - 1].handle),
            ),
        )
    }
}

/// The menu of the commands of a conversation.
pub fn command_menu(v: &Vec<Named>, revision: &str) -> (r: Menu)
    ensures
        r@ == actions::menu_of(
            "Session commands · "@ + revision@,
            command_items(v@, v@.len() as int),
        ),
{
    let mut items = no_items();
    let mut i: usize = 0;
    while i < v.len()
        invariant
            i <= v@.len(),
            actions::items_of(items@) == command_items(v@, i as int),
        decreases v@.len() - i,
    {
        push_item(
            &mut items,
            cat4("/", v[i].name.as_str(), " · ", v[i].description.as_str()),
            Action::CommandHelp(v[i].handle),
        );
        i += 1;
    }
    make_menu(cat2("Session commands · ", revision), items)
}

/// What is done about the result of a command.
#[derive(Debug)]
pub enum ResultStep {
    /// The outcome is asked for, and that is told.
    Query(String),
    /// The receipt is shown.
    Show(String),
    /// There is none, as is told.
    Missing(String),
}

/// What is done about the result of a command: an unknown outcome is asked for first.
pub fn command_result(pending: Option<&str>, receipt: Option<&str>) -> (r: ResultStep)
    ensures
        match pending {
            Some(id) => r matches ResultStep::Query(s) && s@ == "Querying command "@ + id@,
            None => match receipt {
                Some(shown) => r matches ResultStep::Show(s) && s@ == shown@,
                None => r matches ResultStep::Missing(s) && s@ == "No Session command result"@,
            },
        },
{
    match pending {
        Some(id) => ResultStep::Query(cat2("Querying command ", id)),
        None => match receipt {
            Some(shown) => ResultStep::Show(shown.to_owned()),
            None => ResultStep::Missing("No Session command result".to_owned()),
        },
    }
}

/// What is told of a command that was run.
pub fn command_told(id: &str, outcome: &str) -> (r: String)
    ensures
        r@ == "Command "@ + id@ + " · "@ + outcome@,
{
    cat4("Command ", id, " · ", outcome)
}

/// What is told of something that the conversation noticed.
pub fn noticed(kind: &str, value: &str) -> (r: String)
    ensures
        r@ == kind@ + ": "@ + value@,
{
    cat3(kind, ": ", value)
}

/// Says whether something that was noticed means that the extensions tell nothing newer.
pub fn is_projection_notice(kind: &str) -> (r: bool)
    ensures
        r == (kind@ == "projection_reconnecting"@ || kind@ == "projection_stopped"@),
{
    crate::text::same(kind, "projection_reconnecting") || crate::text::same(
        kind,
        "projection_stopped",
    )
}

/// The extensions and the commands of a list, each with its own; an extension that failed says so.
pub proof fn law_extension_items(v: Seq<Entry>, w: Seq<Named>, n: int, m: int, i: int)
    requires
        0 <= n <= v.len(),
        0 <= m <= w.len(),
    ensures
        entry_items(v, n).len() == n,
        command_items(w, m).len() == m,
        0 <= i < n ==> entry_items(v, n)[i].1 == Action::Extension(v[i].handle),
        0 <= i < n && v[i].shown is Ok ==> entry_items(v, n)[i].0 == v[i].producer@,
        0 <= i < n && v[i].shown is Err ==> entry_items(v, n)[i].0 == v[i].producer@
            + " · producer failed"@,
        0 <= i < m ==> command_items(w, m)[i] == (
            "/"@ + w[i].name@ + " · "@ + w[i].description@,
            Action::CommandHelp(w[i].handle),
        ),
    decreases n + m,
{
    if n > 0 {
        law_extension_items(v, w, n - 1, m, i);
    } else if m > 0 {
        law_extension_items(v, w, n, m - 1, i);
    }
}

/// The extension that is found has the handle that was looked for, and there is none where none is
/// found.
pub proof fn law_entry_at(v: Seq<Entry>, handle: u64)
    ensures
        match entry_at(v, handle) {
            Some(e) => e.handle == handle && v.contains(e),
            None => forall|i: int| 0 <= i < v.len() ==> (#[trigger] v[i]).handle != handle,
        },
    decreases v.len(),
{
    if v.len() > 0 {
        if v[0].handle == handle {
            assert(v.contains(v[0]));
        } else {
            let rest = v.drop_first();
            law_entry_at(rest, handle);
            match entry_at(rest, handle) {
                Some(e) => {
                    let i = rest.index_of(e);
                    assert(v[i + 1] == e);
                },
                None => {
                    assert forall|i: int| 0 <= i < v.len() implies (#[trigger] v[i]).handle
                        != handle by {
                        if i > 0 {
                            assert(rest[i - 1] == v[i]);
                        }
                    }
                },
            }
        }
    }
}

/// What one extension shows stands below its producer, the point of the record and the notice; one
/// that failed says why.
pub proof fn law_entry_text(e: Entry, cursor: Seq<char>, notice: Seq<char>)
    ensures
        e.shown matches Ok(s) ==> entry_text(e, cursor, notice) == e.producer@ + " · "@ + cursor
            + "\n"@ + notice + "\n\n"@ + s@,
        e.shown matches Err(p) ==> entry_text(e, cursor, notice) == e.producer@ + " · "@ + cursor
            + "\n"@ + notice + "\n\n"@ + ("Producer failed: "@ + p@),
        forall|p: Projections| #[trigger]
            extension_title(p, seq![]) == "Extension state · "@ + p.cursor@,
        notice.len() > 0 ==> forall|p: Projections| #[trigger]
            extension_title(p, notice) == "Extension state · "@ + p.cursor@
                + " · unavailable, last snapshot"@,
{
}

} // verus!
