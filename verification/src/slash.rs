//! Commands that complete while they are typed, and the help over them.
//!
//! What is shown is a snapshot: a result that was asked for before the last invalidation never
//! replaces it.
use vstd::prelude::*;
use vstd::string::*;
use crate::text;
use crate::text::{
    byte_len, characters, contains_char, is_before, is_blank, same, split_words, starts_with,
};

verus! {

/// The number of commands that the application itself has.
pub const BUILTINS: usize = 15;

/// The name of a command of the application.
pub open spec fn builtin_name(i: int) -> Seq<char> {
    if i == 0 {
        "help"@
    } else if i == 1 {
        "history"@
    } else if i == 2 {
        "attention"@
    } else if i == 3 {
        "markdown"@
    } else if i == 4 {
        "plugins"@
    } else if i == 5 {
        "profiles"@
    } else if i == 6 {
        "external"@
    } else if i == 7 {
        "reference"@
    } else if i == 8 {
        "login"@
    } else if i == 9 {
        "model"@
    } else if i == 10 {
        "effort"@
    } else if i == 11 {
        "new"@
    } else if i == 12 {
        "resume"@
    } else if i == 13 {
        "quit"@
    } else {
        "exit"@
    }
}

/// What a command of the application is for.
pub open spec fn builtin_description(i: int) -> Seq<char> {
    if i == 0 {
        "Commands and keyboard shortcuts"@
    } else if i == 1 {
        "Search conversation text: /history <session-id|external:id> <query>"@
    } else if i == 2 {
        "Pending requests, running conversations and unread activity"@
    } else if i == 3 {
        "Render assistant Markdown: /markdown [on|off]; process-local"@
    } else if i == 4 {
        "Read and refresh observed plugin status"@
    } else if i == 5 {
        "Review Host leaf changes, explicit grants and source receipts"@
    } else if i == 6 {
        "Configured external agents, permissions and observed history"@
    } else if i == 7 {
        "Frozen conversation reference: /reference [session_id]"@
    } else if i == 8 {
        "Log in: /login [deepseek|openai|openai-compatible]"@
    } else if i == 9 {
        "Select model; Ctrl+S also saves startup default"@
    } else if i == 10 {
        "Select reasoning effort for the current model"@
    } else if i == 11 {
        "New session in the current workspace; retain this draft"@
    } else if i == 12 {
        "Recent sessions or /resume <session_id>; Ctrl+Y copies ID"@
    } else if i == 13 {
        "Exit immediately; process-local drafts are discarded"@
    } else {
        "Alias for /quit"@
    }
}

pub(crate) fn builtin_name_at(i: usize) -> (r: &'static str)
    ensures
        r@ == builtin_name(i as int),
{
    if i == 0 {
        "help"
    } else if i == 1 {
        "history"
    } else if i == 2 {
        "attention"
    } else if i == 3 {
        "markdown"
    } else if i == 4 {
        "plugins"
    } else if i == 5 {
        "profiles"
    } else if i == 6 {
        "external"
    } else if i == 7 {
        "reference"
    } else if i == 8 {
        "login"
    } else if i == 9 {
        "model"
    } else if i == 10 {
        "effort"
    } else if i == 11 {
        "new"
    } else if i == 12 {
        "resume"
    } else if i == 13 {
        "quit"
    } else {
        "exit"
    }
}

pub(crate) fn builtin_description_at(i: usize) -> (r: &'static str)
    ensures
        r@ == builtin_description(i as int),
{
    if i == 0 {
        "Commands and keyboard shortcuts"
    } else if i == 1 {
        "Search conversation text: /history <session-id|external:id> <query>"
    } else if i == 2 {
        "Pending requests, running conversations and unread activity"
    } else if i == 3 {
        "Render assistant Markdown: /markdown [on|off]; process-local"
    } else if i == 4 {
        "Read and refresh observed plugin status"
    } else if i == 5 {
        "Review Host leaf changes, explicit grants and source receipts"
    } else if i == 6 {
        "Configured external agents, permissions and observed history"
    } else if i == 7 {
        "Frozen conversation reference: /reference [session_id]"
    } else if i == 8 {
        "Log in: /login [deepseek|openai|openai-compatible]"
    } else if i == 9 {
        "Select model; Ctrl+S also saves startup default"
    } else if i == 10 {
        "Select reasoning effort for the current model"
    } else if i == 11 {
        "New session in the current workspace; retain this draft"
    } else if i == 12 {
        "Recent sessions or /resume <session_id>; Ctrl+Y copies ID"
    } else if i == 13 {
        "Exit immediately; process-local drafts are discarded"
    } else {
        "Alias for /quit"
    }
}

/// Whether a session command is offered: all but the one that backs model selection.
pub fn visible_session_command(name: &str) -> (r: bool)
    ensures
        r == (name@ != "model-selection"@),
{
    !same(name, "model-selection")
}

/// Whether the first word of a text is a command of the application.
pub open spec fn reserved_text(s: Seq<char>) -> bool {
    text::words(s).len() > 0 && exists|i: int|
        0 <= i < BUILTINS && text::words(s)[0] == seq!['/'] + #[trigger] builtin_name(i)
}

pub fn reserved(s: &str) -> (r: bool)
    ensures
        r == reserved_text(s@),
{
    let list = split_words(s);
    if list.len() == 0 {
        return false;
    }
    proof {
        assert(text::views(list@)[0] == list@[0]@);
    }
    let mut i: usize = 0;
    while i < BUILTINS
        invariant
            i <= BUILTINS,
            list@.len() > 0,
            text::words(s@).len() > 0,
            text::words(s@)[0] == list@[0]@,
            forall|j: int| 0 <= j < i ==> list@[0]@ != seq!['/'] + #[trigger] builtin_name(j),
        decreases BUILTINS - i,
    {
        let mut command = String::new();
        command.push('/');
        command.append(builtin_name_at(i));
        proof {
            assert(command@ =~= seq!['/'] + builtin_name(i as int));
        }
        if same(list[0].as_str(), command.as_str()) {
            return true;
        }
        i += 1;
    }
    false
}

/// Whether a text is sent as it stands although it looks like a command: it begins with two
/// slashes, or it has several lines and begins with a command of the application.
pub open spec fn literal_text(s: Seq<char>) -> bool {
    ||| text::begins(s.skip(text::lead(s) as int), "//"@)
    ||| (s.contains('\r') || s.contains('\n')) && reserved_text(s)
}

/// A text without its leading white space.
fn trim_start(s: &str) -> (r: String)
    ensures
        r@ == s@.skip(text::lead(s@) as int),
{
    let v = characters(s);
    let n: usize = v.len();
    let mut i: usize = 0;
    while i < n && is_blank(v[i])
        invariant
            n == v@.len(),
            i <= n,
            forall|j: int| 0 <= j < i ==> text::blank(v@[j]),
        decreases n - i,
    {
        i += 1;
    }
    proof {
        text::lemma_lead_is(s@, i as int);
        assert(s@.skip(i as int) =~= v@.subrange(i as int, n as int));
    }
    text::collect(v.as_slice(), i, n)
}

pub fn literal(s: &str) -> (r: bool)
    ensures
        r == literal_text(s@),
{
    starts_with(trim_start(s).as_str(), "//") || ((contains_char(s, '\r') || contains_char(s, '\n'))
        && reserved(s))
}

/// What a completion stands for.
#[derive(Clone, Copy, Debug, PartialEq, Eq, Structural)]
pub enum Group {
    Command,
    Skill,
    Agent,
}

/// A completion that the session offers.
#[derive(Debug)]
pub struct Completion {
    pub name: String,
    pub description: String,
    /// What it puts in the place of the word that is typed.
    pub replacement: String,
    pub group: Group,
    /// A resource that can be shown, by a number that its owner gave it.
    pub resource: Option<u64>,
    /// The bytes of its encoding, where it can be encoded.
    pub encoded: Option<usize>,
}

/// A skill or an agent behind an entry.
#[derive(Debug)]
pub struct Skill {
    pub agent: bool,
    pub replacement: String,
    pub resource: Option<u64>,
}

/// A line of the completion list or of the help.
#[derive(Debug)]
pub struct Entry {
    pub name: String,
    pub description: String,
    /// The application itself acts on it.
    pub application: bool,
    pub skill: Option<Skill>,
}

/// What a [`Skill`] says.
#[verifier::ext_equal]
pub struct SkillView {
    pub agent: bool,
    pub replacement: Seq<char>,
    pub resource: Option<u64>,
}

/// What an [`Entry`] says.
#[verifier::ext_equal]
pub struct EntryView {
    pub name: Seq<char>,
    pub description: Seq<char>,
    pub application: bool,
    pub skill: Option<SkillView>,
}

impl View for Entry {
    type V = EntryView;

    open spec fn view(&self) -> EntryView {
        EntryView {
            name: self.name@,
            description: self.description@,
            application: self.application,
            skill: match self.skill {
                Some(skill) => Some(
                    SkillView {
                        agent: skill.agent,
                        replacement: skill.replacement@,
                        resource: skill.resource,
                    },
                ),
                None => None,
            },
        }
    }
}

impl Clone for Entry {
    fn clone(&self) -> (r: Self)
        ensures
            r@ == self@,
    {
        Entry {
            name: self.name.clone(),
            description: self.description.clone(),
            application: self.application,
            skill: match &self.skill {
                Some(skill) => Some(
                    Skill {
                        agent: skill.agent,
                        replacement: skill.replacement.clone(),
                        resource: skill.resource,
                    },
                ),
                None => None,
            },
        }
    }
}

/// What several entries say, in order.
pub open spec fn entries_of(v: Seq<Entry>) -> Seq<EntryView> {
    Seq::new(v.len(), |i: int| v[i]@)
}

/// Bytes of entries that are kept for display.
pub const DISPLAY_BYTES: usize = 64512;

/// Bytes that an entry takes of the display budget.
pub open spec fn display_cost(encoded: int, name: Seq<char>, description: Seq<char>) -> int {
    let sum = encoded + text::size(name) + text::size(description) + 10;
    if sum > usize::MAX {
        usize::MAX as int
    } else {
        sum
    }
}

/// How an entry is described: a skill or an agent says so.
pub open spec fn described(group: Group, description: Seq<char>) -> Seq<char> {
    match group {
        Group::Command => description,
        Group::Skill => "Skill"@ + " · "@ + description,
        Group::Agent => "Agent"@ + " · "@ + description,
    }
}

/// The entry that a completion becomes.
pub open spec fn entry_of(c: Completion) -> EntryView {
    EntryView {
        name: c.name@,
        description: described(c.group, c.description@),
        application: false,
        skill: if c.group is Command {
            None
        } else {
            Some(
                SkillView {
                    agent: c.group is Agent,
                    replacement: c.replacement@,
                    resource: c.resource,
                },
            )
        },
    }
}

/// Whether a completion fits into what remains of the budget.
pub open spec fn fits(c: Completion, remaining: int) -> bool {
    c.encoded matches Some(n) && display_cost(n as int, c.name@, c.description@) <= remaining
}

/// Makes an entry of a completion, where the budget allows it.
pub fn catalog_entry(c: Completion, remaining: &mut usize) -> (r: Option<Entry>)
    ensures
        match r {
            Some(entry) => fits(c, *old(remaining) as int) && entry@ == entry_of(c)
                && *final(remaining) == *old(remaining) - display_cost(
                c.encoded->0 as int,
                c.name@,
                c.description@,
            ),
            None => !fits(c, *old(remaining) as int) && *final(remaining) == *old(remaining),
        },
{
    let encoded: usize = match c.encoded {
        Some(n) => n,
        None => {
            return None;
        },
    };
    let bytes: usize = encoded.saturating_add(byte_len(c.name.as_str())).saturating_add(
        byte_len(c.description.as_str()),
    ).saturating_add(10);
    if bytes > *remaining {
        return None;
    }
    *remaining = *remaining - bytes;
    let mut description: String = String::new();
    match c.group {
        Group::Command => {},
        Group::Skill => {
            description.append("Skill");
            description.append(" · ");
        },
        Group::Agent => {
            description.append("Agent");
            description.append(" · ");
        },
    }
    description.append(c.description.as_str());
    proof {
        assert(description@ =~= described(c.group, c.description@));
    }
    let skill: Option<Skill> = match c.group {
        Group::Command => None,
        Group::Skill => Some(
            Skill { agent: false, replacement: c.replacement.clone(), resource: c.resource },
        ),
        Group::Agent => Some(
            Skill { agent: true, replacement: c.replacement.clone(), resource: c.resource },
        ),
    };
    let entry = Entry { name: c.name.clone(), description, application: false, skill };
    proof {
        assert(entry@ =~= entry_of(c));
    }
    Some(entry)
}

/// The entries that fit into the budget, in order, and what then remains of it.
pub open spec fn catalog_of(cs: Seq<Completion>, budget: int) -> (Seq<EntryView>, int)
    decreases cs.len(),
{
    if cs.len() == 0 {
        (seq![], budget)
    } else {
        let (before, remaining) = catalog_of(cs.drop_last(), budget);
        let c = cs.last();
        if fits(c, remaining) {
            (
                before.push(entry_of(c)),
                remaining - display_cost(c.encoded->0 as int, c.name@, c.description@),
            )
        } else {
            (before, remaining)
        }
    }
}

/// What is told where some entries do not fit.
pub open spec fn catalog_notice(notice: Seq<char>, omitted: bool) -> Seq<char> {
    if omitted {
        notice + " Some completion entries exceed the 64 KiB display limit."@
    } else {
        notice
    }
}

/// Makes the catalog of what the session offers.
pub fn build_catalog(completions: Vec<Completion>, notice: String) -> (r: (Vec<Entry>, String))
    ensures
        entries_of(r.0@) == catalog_of(completions@, DISPLAY_BYTES as int).0,
        r.1@ == catalog_notice(
            notice@,
            catalog_of(completions@, DISPLAY_BYTES as int).0.len() < completions@.len(),
        ),
{
    let ghost all = completions@;
    let total: usize = completions.len();
    let mut remaining: usize = DISPLAY_BYTES;
    let mut entries: Vec<Entry> = Vec::new();
    let mut rest: Vec<Completion> = Vec::new();
    let mut source: Vec<Completion> = completions;
    let ghost mut done: int = 0;
    proof {
        assert(all.take(0) =~= Seq::<Completion>::empty());
        assert(entries_of(entries@) =~= Seq::<EntryView>::empty());
        assert(all.skip(0) =~= all);
    }
    while source.len() > 0
        invariant
            0 <= done <= all.len(),
            source@ == all.skip(done),
            remaining <= DISPLAY_BYTES,
            (entries_of(entries@), remaining as int) == catalog_of(
                all.take(done),
                DISPLAY_BYTES as int,
            ),
            entries@.len() <= done,
        decreases source@.len(),
    {
        let c = source.remove(0);
        let ghost before = entries_of(entries@);
        proof {
            assert(c == all[done]);
            assert(all.take(done + 1).drop_last() =~= all.take(done));
            assert(all.take(done + 1).last() == c);
            assert(source@ =~= all.skip(done + 1));
        }
        if let Some(entry) = catalog_entry(c, &mut remaining) {
            let ghost view = entry@;
            entries.push(entry);
            proof {
                assert(entries_of(entries@) =~= before.push(view));
            }
        }
        proof {
            done = done + 1;
        }
    }
    proof {
        assert(all.take(done) =~= all);
    }
    let mut notice: String = notice;
    if entries.len() < total {
        notice.append(" Some completion entries exceed the 64 KiB display limit.");
    }
    (entries, notice)
}

/// The command of the application at an index.
pub open spec fn builtin_entry(i: int) -> EntryView {
    EntryView {
        name: builtin_name(i),
        description: builtin_description(i),
        application: true,
        skill: None,
    }
}

/// The commands of the application.
pub open spec fn builtin_entries() -> Seq<EntryView> {
    Seq::new(BUILTINS as nat, |i: int| builtin_entry(i))
}

/// The entry for a provider to log in with.
pub open spec fn provider_entry(name: Seq<char>) -> EntryView {
    EntryView { name, description: "Provider"@, application: true, skill: None }
}

/// The providers to log in with.
pub open spec fn provider_entries() -> Seq<EntryView> {
    seq![
        provider_entry("deepseek"@),
        provider_entry("openai"@),
        provider_entry("openai-compatible"@),
    ]
}

pub(crate) fn make_providers() -> (r: Vec<Entry>)
    ensures
        entries_of(r@) == provider_entries(),
{
    let mut r: Vec<Entry> = Vec::new();
    r.push(
        Entry {
            name: "deepseek".to_owned(),
            description: "Provider".to_owned(),
            application: true,
            skill: None,
        },
    );
    r.push(
        Entry {
            name: "openai".to_owned(),
            description: "Provider".to_owned(),
            application: true,
            skill: None,
        },
    );
    r.push(
        Entry {
            name: "openai-compatible".to_owned(),
            description: "Provider".to_owned(),
            application: true,
            skill: None,
        },
    );
    proof {
        assert(entries_of(r@) =~= provider_entries());
    }
    r
}

/// An entry that matches what is typed, with how well: a lower rank is better.
#[verifier::ext_equal]
pub struct RankedView {
    pub entry: EntryView,
    pub rank: u8,
}

/// An entry that matches, with its rank.
pub struct Ranked {
    pub entry: Entry,
    pub rank: u8,
}

/// What several matches say, in order.
pub open spec fn ranked_of(v: Seq<Ranked>) -> Seq<RankedView> {
    Seq::new(v.len(), |i: int| RankedView { entry: v[i].entry@, rank: v[i].rank })
}

/// Whether one match is listed before another: commands before skills and agents, then the
/// better match, then by name.
pub open spec fn listed_before(a: RankedView, b: RankedView) -> bool {
    if a.entry.skill is Some != b.entry.skill is Some {
        b.entry.skill is Some
    } else if a.rank != b.rank {
        a.rank < b.rank
    } else {
        text::before(a.entry.name, b.entry.name)
    }
}

fn is_listed_before(a: &Ranked, b: &Ranked) -> (r: bool)
    ensures
        r == listed_before(
            (RankedView { entry: a.entry@, rank: a.rank }),
            (RankedView { entry: b.entry@, rank: b.rank }),
        ),
{
    if a.entry.skill.is_some() != b.entry.skill.is_some() {
        b.entry.skill.is_some()
    } else if a.rank != b.rank {
        a.rank < b.rank
    } else {
        is_before(a.entry.name.as_str(), b.entry.name.as_str())
    }
}

/// Where a match goes into a sorted list: behind everything that it is not listed before.
pub open spec fn place(list: Seq<RankedView>, x: RankedView) -> nat
    decreases list.len(),
{
    if list.len() == 0 || !listed_before(x, list.last()) {
        list.len()
    } else {
        place(list.drop_last(), x)
    }
}

/// The list with a match put in its place.
pub open spec fn placed(list: Seq<RankedView>, x: RankedView) -> Seq<RankedView> {
    list.insert(place(list, x) as int, x)
}

/// The matches in the order in which they are listed. Equal ones keep their order.
pub open spec fn ordered(list: Seq<RankedView>) -> Seq<RankedView>
    decreases list.len(),
{
    if list.len() == 0 {
        seq![]
    } else {
        placed(ordered(list.drop_last()), list.last())
    }
}

proof fn lemma_place(list: Seq<RankedView>, x: RankedView)
    ensures
        place(list, x) <= list.len(),
    decreases list.len(),
{
    if list.len() > 0 {
        lemma_place(list.drop_last(), x);
    }
}

/// Ordering neither loses nor invents a match.
pub proof fn law_ordered(list: Seq<RankedView>)
    ensures
        ordered(list).len() == list.len(),
        ordered(list).to_multiset() == list.to_multiset(),
    decreases list.len(),
{
    broadcast use vstd::seq_lib::group_to_multiset_ensures;

    if list.len() > 0 {
        let before = list.drop_last();
        law_ordered(before);
        lemma_place(ordered(before), list.last());
        assert(list =~= before.push(list.last()));
        vstd::seq_lib::to_multiset_insert(
            ordered(before),
            place(ordered(before), list.last()) as int,
            list.last(),
        );
        assert(before.push(list.last()).to_multiset() =~= before.to_multiset().insert(list.last()));
    } else {
        assert(ordered(list) =~= list);
    }
}

pub(crate) fn order(list: Vec<Ranked>) -> (r: Vec<Ranked>)
    ensures
        ranked_of(r@) == ordered(ranked_of(list@)),
{
    let ghost all = ranked_of(list@);
    let mut source: Vec<Ranked> = list;
    let mut out: Vec<Ranked> = Vec::new();
    let ghost mut done: int = 0;
    proof {
        assert(all.take(0) =~= Seq::<RankedView>::empty());
        assert(ranked_of(out@) =~= Seq::<RankedView>::empty());
        assert(all.skip(0) =~= all);
    }
    while source.len() > 0
        invariant
            0 <= done <= all.len(),
            ranked_of(source@) == all.skip(done),
            ranked_of(out@) == ordered(all.take(done)),
        decreases source@.len(),
    {
        let ghost pending = ranked_of(source@);
        proof {
            assert(pending.len() == source@.len());
        }
        let x = source.remove(0);
        let ghost view = RankedView { entry: x.entry@, rank: x.rank };
        proof {
            assert(pending.len() == all.len() - done);
            assert(pending[0] == view);
            assert(ranked_of(source@) =~= pending.drop_first());
            assert(pending.drop_first() =~= all.skip(done + 1));
            assert(all.take(done + 1).drop_last() =~= all.take(done));
            assert(all.take(done + 1).last() == view);
        }
        let ghost sorted = ranked_of(out@);
        let mut at: usize = out.len();
        proof {
            assert(sorted.take(sorted.len() as int) =~= sorted);
        }
        while at > 0 && is_listed_before(&x, &out[at - 1])
            invariant
                at <= out@.len(),
                ranked_of(out@) == sorted,
                view == (RankedView { entry: x.entry@, rank: x.rank }),
                place(sorted.take(at as int), view) == place(sorted, view),
            decreases at,
        {
            proof {
                assert(sorted.take(at as int).last() == sorted[at - 1]);
                assert(sorted.take(at as int).drop_last() =~= sorted.take(at - 1));
            }
            at -= 1;
        }
        proof {
            if at > 0 {
                assert(sorted.take(at as int).last() == sorted[at - 1]);
            }
            assert(place(sorted, view) == at);
        }
        out.insert(at, x);
        proof {
            assert(ranked_of(out@) =~= sorted.insert(at as int, view));
            done = done + 1;
        }
    }
    proof {
        assert(all.take(done) =~= all);
    }
    out
}

/// The words that are commands of the application: these fifteen behind a slash, and no others.
pub proof fn law_reserved_words(s: Seq<char>)
    ensures
        reserved_text(s) <==> text::words(s).len() > 0 && {
            let w = text::words(s)[0];
            ||| w == seq!['/'] + "help"@
            ||| w == seq!['/'] + "history"@
            ||| w == seq!['/'] + "attention"@
            ||| w == seq!['/'] + "markdown"@
            ||| w == seq!['/'] + "plugins"@
            ||| w == seq!['/'] + "profiles"@
            ||| w == seq!['/'] + "external"@
            ||| w == seq!['/'] + "reference"@
            ||| w == seq!['/'] + "login"@
            ||| w == seq!['/'] + "model"@
            ||| w == seq!['/'] + "effort"@
            ||| w == seq!['/'] + "new"@
            ||| w == seq!['/'] + "resume"@
            ||| w == seq!['/'] + "quit"@
            ||| w == seq!['/'] + "exit"@
        },
{
    if text::words(s).len() > 0 {
        let w = text::words(s)[0];
        assert(builtin_name(0) == "help"@);
        assert(builtin_name(1) == "history"@);
        assert(builtin_name(2) == "attention"@);
        assert(builtin_name(3) == "markdown"@);
        assert(builtin_name(4) == "plugins"@);
        assert(builtin_name(5) == "profiles"@);
        assert(builtin_name(6) == "external"@);
        assert(builtin_name(7) == "reference"@);
        assert(builtin_name(8) == "login"@);
        assert(builtin_name(9) == "model"@);
        assert(builtin_name(10) == "effort"@);
        assert(builtin_name(11) == "new"@);
        assert(builtin_name(12) == "resume"@);
        assert(builtin_name(13) == "quit"@);
        assert(builtin_name(14) == "exit"@);
        if reserved_text(s) {
            let i = choose|i: int|
                0 <= i < BUILTINS && text::words(s)[0] == seq!['/'] + #[trigger] builtin_name(i);
            assert(0 <= i < 15);
        }
    }
}

/// A text behind two slashes is sent as it stands, whatever white space stands before them; one on
/// a single line that does not begin so never is; one with several lines is exactly where it begins
/// with a command of the application.
pub proof fn law_literal_text(a: Seq<char>, s: Seq<char>)
    requires
        forall|i: int| 0 <= i < a.len() ==> text::blank(#[trigger] a[i]),
        s.len() > 0 && !text::blank(s[0]),
    ensures
        s.len() > 1 && s[0] == '/' && s[1] == '/' ==> literal_text(a + s),
        !(s.len() > 1 && s[0] == '/' && s[1] == '/') ==> {
            let t = a + s;
            &&& !t.contains('\n') && !t.contains('\r') ==> !literal_text(t)
            &&& t.contains('\n') || t.contains('\r') ==> (literal_text(t) <==> reserved_text(s))
        },
{
    let t = a + s;
    let n = a.len() as int;
    reveal_strlit("//");
    assert(t[n] == s[0]);
    text::lemma_lead_is(t, n);
    assert(t.skip(n) =~= s);
    text::law_words(a, s);
    if s.len() > 1 {
        assert(s.take(2)[0] == s[0] && s.take(2)[1] == s[1]);
        if s[0] == '/' && s[1] == '/' {
            assert(s.take(2) =~= "//"@);
        }
    }
}

/// Commands are listed before skills and agents; among their like the better match comes first, and
/// equal matches stand by name. No two are listed before each other.
pub proof fn law_listing(a: RankedView, b: RankedView)
    ensures
        a.entry.skill is None && b.entry.skill is Some ==> listed_before(a, b) && !listed_before(
            b,
            a,
        ),
        (a.entry.skill is Some) == (b.entry.skill is Some) && a.rank < b.rank ==> listed_before(a, b)
            && !listed_before(b, a),
        (a.entry.skill is Some) == (b.entry.skill is Some) && a.rank == b.rank ==> (listed_before(
            a,
            b,
        ) <==> text::before(a.entry.name, b.entry.name)),
        !(listed_before(a, b) && listed_before(b, a)),
{
    text::lemma_before(a.entry.name, b.entry.name);
}

/// What an entry takes of the display budget: its own bytes, those of its name and description, and
/// ten more.
pub proof fn law_display_cost(encoded: int, name: Seq<char>, description: Seq<char>)
    requires
        encoded + text::size(name) + text::size(description) + 10 <= usize::MAX,
    ensures
        display_cost(encoded, name, description) == encoded + text::size(name) + text::size(
            description,
        ) + 10,
{
}

/// The catalogue never takes more than its budget. A completion is listed exactly where it fits
/// into what those before it have left, and what it takes is then gone.
pub proof fn law_catalog(cs: Seq<Completion>, c: Completion, budget: int)
    requires
        0 <= budget,
    ensures
        0 <= catalog_of(cs, budget).1 <= budget,
        ({
            let (before, left) = catalog_of(cs, budget);
            let (after, rest) = catalog_of(cs.push(c), budget);
            let takes = c.encoded is Some && display_cost(
                c.encoded->0 as int,
                c.name@,
                c.description@,
            ) <= left;
            &&& takes ==> after == before.push(entry_of(c)) && rest == left - display_cost(
                c.encoded->0 as int,
                c.name@,
                c.description@,
            )
            &&& !takes ==> after == before && rest == left
        }),
        catalog_of(seq![], budget) == (Seq::<EntryView>::empty(), budget),
    decreases cs.len(),
{
    assert(cs.push(c).drop_last() =~= cs);
    if cs.len() > 0 {
        law_catalog(cs.drop_last(), cs.last(), budget);
    }
}

/// What a completion becomes: a command keeps its description, a skill and an agent say what they
/// are and carry what they insert.
pub proof fn law_entry(c: Completion)
    ensures
        entry_of(c).name == c.name@,
        !entry_of(c).application,
        c.group is Command ==> entry_of(c).skill is None && entry_of(c).description
            == c.description@,
        c.group is Skill ==> entry_of(c).description == "Skill"@ + " · "@ + c.description@
            && entry_of(c).skill is Some && !entry_of(c).skill->0.agent,
        c.group is Agent ==> entry_of(c).description == "Agent"@ + " · "@ + c.description@
            && entry_of(c).skill is Some && entry_of(c).skill->0.agent,
        !(c.group is Command) ==> entry_of(c).skill->0.replacement == c.replacement@
            && entry_of(c).skill->0.resource == c.resource,
{
}

/// The commands of the application are all listed, each under its own name, and so are the three
/// providers to log in with.
pub proof fn law_builtin_entries()
    ensures
        builtin_entries().len() == 15,
        forall|i: int|
            0 <= i < 15 ==> (#[trigger] builtin_entries()[i]).name == builtin_name(i)
                && builtin_entries()[i].description == builtin_description(i)
                && builtin_entries()[i].application && builtin_entries()[i].skill is None,
        provider_entries().len() == 3,
        provider_entries()[0].name == "deepseek"@,
        provider_entries()[1].name == "openai"@,
        provider_entries()[2].name == "openai-compatible"@,
{
}

proof fn lemma_listed_apart(x: RankedView, a: RankedView, b: RankedView)
    requires
        listed_before(x, a),
    ensures
        listed_before(x, b) || listed_before(b, a),
{
    text::lemma_before(a.entry.name, b.entry.name);
    if text::before(x.entry.name, a.entry.name) && text::before(a.entry.name, b.entry.name) {
        text::lemma_before_chain(x.entry.name, a.entry.name, b.entry.name);
    }
}

/// Whether nothing stands in a list behind something that is listed after it.
pub open spec fn in_order(list: Seq<RankedView>) -> bool {
    forall|i: int, j: int|
        0 <= i < j < list.len() ==> !listed_before(#[trigger] list[j], #[trigger] list[i])
}

proof fn lemma_placed_in_order(list: Seq<RankedView>, x: RankedView)
    requires
        in_order(list),
    ensures
        in_order(placed(list, x)),
{
    let p = place(list, x) as int;
    lemma_place_splits(list, x);
    let w = placed(list, x);
    assert forall|i: int, j: int| 0 <= i < j < w.len() implies !listed_before(
        #[trigger] w[j],
        #[trigger] w[i],
    ) by {
        if i == p {
            assert(w[j] == list[j - 1]);
            law_listing(x, list[j - 1]);
        } else if j == p {
            assert(w[i] == list[i]);
            if listed_before(x, list[i]) {
                lemma_listed_apart(x, list[i], list[p - 1]);
                if i < p - 1 {
                    assert(!listed_before(list[p - 1], list[i]));
                }
            }
        } else {
            let a = if i < p {
                i
            } else {
                i - 1
            };
            let b = if j < p {
                j
            } else {
                j - 1
            };
            assert(w[i] == list[a] && w[j] == list[b]);
        }
    }
}

proof fn lemma_place_splits(list: Seq<RankedView>, x: RankedView)
    ensures
        place(list, x) <= list.len(),
        place(list, x) > 0 ==> !listed_before(x, list[place(list, x) - 1]),
        forall|i: int| place(list, x) <= i < list.len() ==> listed_before(x, #[trigger] list[i]),
    decreases list.len(),
{
    if list.len() > 0 && listed_before(x, list.last()) {
        let front = list.drop_last();
        lemma_place_splits(front, x);
        assert forall|i: int| place(list, x) <= i < list.len() implies listed_before(
            x,
            #[trigger] list[i],
        ) by {
            if i < front.len() {
                assert(front[i] == list[i]);
            }
        }
    }
}

/// The matches come in the order in which they are listed.
pub proof fn law_ordered_in_order(list: Seq<RankedView>)
    ensures
        in_order(ordered(list)),
    decreases list.len(),
{
    if list.len() > 0 {
        law_ordered_in_order(list.drop_last());
        lemma_placed_in_order(ordered(list.drop_last()), list.last());
    }
}

} // verus!
