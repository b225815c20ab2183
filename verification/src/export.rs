//! Writing a conversation out.
use vstd::prelude::*;
use vstd::string::*;

verus! {

/// The conversations of a page.
pub const PAGE_SESSIONS: usize = 20;

/// Why nothing was written.
#[derive(Debug)]
pub enum Error {
    Cancelled,
    Failed(String),
}

impl Error {
    /// What is told of it.
    pub fn message(&self) -> (r: String)
        ensures
            r@ == (match self {
                Error::Cancelled => "Export cancelled"@,
                Error::Failed(s) => s@,
            }),
    {
        match self {
            Error::Cancelled => "Export cancelled".to_owned(),
            Error::Failed(s) => s.clone(),
        }
    }
}

/// Where a conversation is written to.
#[derive(Clone, Copy, Debug, PartialEq, Eq, Structural)]
pub enum Destination {
    /// The file that was named.
    Named,
    /// A file of the name that its format gives.
    Default,
    /// The output of the program.
    Output,
}

/// Where a conversation is written to: without a name, a program that was started for it writes to
/// its output, and a client to a file.
pub fn destination(named: bool, client: bool) -> (r: Destination)
    ensures
        r == (if named {
            Destination::Named
        } else if client {
            Destination::Default
        } else {
            Destination::Output
        }),
{
    if named {
        Destination::Named
    } else if client {
        Destination::Default
    } else {
        Destination::Output
    }
}

/// A conversation of a page.
#[derive(Clone, Copy, Debug, PartialEq, Eq, Structural)]
pub struct Row {
    pub id: u64,
    /// Where the next page begins, if it is the last.
    pub cursor: u64,
    /// Whether it was not begun from another.
    pub root: bool,
    /// Whether it belongs to the directory that is looked for.
    pub here: bool,
}

/// The first conversation that is looked for, from an index on.
pub open spec fn found(v: Seq<Row>, i: int) -> Option<u64>
    decreases v.len() - i,
{
    if i < 0 || i >= v.len() {
        None
    } else if v[i].root && v[i].here {
        Some(v[i].id)
    } else {
        found(v, i + 1)
    }
}

/// What a page leads to.
#[derive(Clone, Copy, Debug, PartialEq, Eq, Structural)]
pub enum Latest {
    Found(u64),
    /// The page after a conversation is read.
    Next(u64),
    /// There is none.
    Missing,
    /// The pages do not go on.
    Stuck,
}

impl Latest {
    /// What is told where nothing was found.
    pub fn problem(&self) -> (r: Option<&'static str>)
        ensures
            match self {
                Latest::Missing => r matches Some(s) && s@
                    == "No durable root Session in this workspace"@,
                Latest::Stuck => r matches Some(s) && s@ == "Session listing made no progress"@,
                _ => r is None,
            },
    {
        match self {
            Latest::Missing => Some("No durable root Session in this workspace"),
            Latest::Stuck => Some("Session listing made no progress"),
            _ => None,
        }
    }
}

/// What a page leads to, that was read after a conversation.
pub open spec fn led(v: Seq<Row>, has_more: bool, after: Option<u64>) -> Latest {
    match found(v, 0) {
        Some(id) => Latest::Found(id),
        None => if !has_more {
            Latest::Missing
        } else if v.len() == 0 || after == Some(v.last().cursor) {
            Latest::Stuck
        } else {
            Latest::Next(v.last().cursor)
        },
    }
}

/// What a page leads to, that was read after a conversation.
pub fn latest(v: &Vec<Row>, has_more: bool, after: Option<u64>) -> (r: Latest)
    ensures
        r == led(v@, has_more, after),
{
    let mut i: usize = 0;
    while i < v.len()
        invariant
            i <= v@.len(),
            found(v@, 0) == found(v@, i as int),
        decreases v@.len() - i,
    {
        if v[i].root && v[i].here {
            return Latest::Found(v[i].id);
        }
        i += 1;
    }
    if !has_more {
        return Latest::Missing;
    }
    if v.len() == 0 {
        return Latest::Stuck;
    }
    let cursor: u64 = v[v.len() - 1].cursor;
    if let Some(before) = after {
        if before == cursor {
            return Latest::Stuck;
        }
    }
    Latest::Next(cursor)
}

/// What is found is a conversation of the page that was not begun from another and belongs to the
/// directory, and reading only goes on from where it has not been.
pub proof fn law_latest(v: Seq<Row>, has_more: bool, after: Option<u64>)
    ensures
        led(v, has_more, after) matches Latest::Found(id) ==> exists|i: int|
            0 <= i < v.len() && (#[trigger] v[i]).id == id && v[i].root && v[i].here,
        led(v, has_more, after) matches Latest::Next(cursor) ==> after != Some(cursor),
{
    lemma_found(v, 0);
}

proof fn lemma_found(v: Seq<Row>, i: int)
    requires
        0 <= i,
    ensures
        found(v, i) matches Some(id) ==> exists|k: int|
            0 <= k < v.len() && (#[trigger] v[k]).id == id && v[k].root && v[k].here,
    decreases v.len() - i,
{
    if i < v.len() && !(v[i].root && v[i].here) {
        lemma_found(v, i + 1);
    }
}

/// The conversation that is found is the first of the page that is no other's child and belongs
/// here.
pub proof fn law_first_here(v: Seq<Row>, i: int)
    requires
        0 <= i <= v.len(),
    ensures
        match found(v, i) {
            Some(id) => exists|k: int|
                i <= k < v.len() && (#[trigger] v[k]).id == id && v[k].root && v[k].here && forall|
                    j: int,
                |
                    i <= j < k ==> !((#[trigger] v[j]).root && v[j].here),
            None => forall|j: int| i <= j < v.len() ==> !((#[trigger] v[j]).root && v[j].here),
        },
    decreases v.len() - i,
{
    if i < v.len() {
        if v[i].root && v[i].here {
            assert(v[i].id == v[i].id);
        } else {
            law_first_here(v, i + 1);
            if let Some(id) = found(v, i + 1) {
                let k = choose|k: int|
                    i + 1 <= k < v.len() && (#[trigger] v[k]).id == id && v[k].root && v[k].here
                        && forall|j: int|
                        i + 1 <= j < k ==> !((#[trigger] v[j]).root && v[j].here);
                assert(v[k].id == id);
            }
        }
    }
}

/// Where a page holds none, the next one is read from its last conversation on; without a further
/// page there is none, and a page that leads nowhere new ends the search.
pub proof fn law_led(v: Seq<Row>, has_more: bool, after: Option<u64>)
    ensures
        found(v, 0) matches Some(id) ==> led(v, has_more, after) == Latest::Found(id),
        found(v, 0) is None && !has_more ==> led(v, has_more, after) is Missing,
        found(v, 0) is None && has_more && v.len() > 0 && after != Some(v.last().cursor) ==> led(
            v,
            has_more,
            after,
        ) == Latest::Next(v.last().cursor),
        found(v, 0) is None && has_more && (v.len() == 0 || after == Some(v.last().cursor)) ==> led(
            v,
            has_more,
            after,
        ) is Stuck,
{
}

} // verus!
