//! Conversations with agents of other programs: what is listed and shown of them, and the drafts
//! that are kept.
//!
//! Endpoints, conversations and sources are named by numbers that their owners give.
use vstd::prelude::*;
use vstd::string::*;
use crate::number;
use crate::number::decimal;
use crate::pages;
use crate::pages::decode_lossy;
use crate::text;
use crate::text::{byte_len, cat2, cat3, cat4, cat5, characters, collect, is_before};

verus! {

/// The drafts that are kept, and their bytes.
pub const KEPT_DRAFTS: usize = 16;

pub const KEPT_BYTES: usize = 1048576;

/// The conversations of a page.
pub const PAGE_CONVERSATIONS: usize = 64;

/// The entries that the list of what needs attention has.
pub const ATTENTION_ENTRIES: usize = 257;

/// The bytes of a source that are shown at once, and that are read at once.
pub const SHOWN_BYTES: usize = 8000;

pub const SOURCE_BYTES: usize = 65536;

/// The bytes of a conversation that are shown.
pub const TAIL_BYTES: usize = 8192;

/// How a connection is made again.
#[derive(Clone, Copy, Debug, PartialEq, Eq, Structural)]
pub enum Setup {
    Resume,
    Load,
}

/// What is asked of a conversation.
#[derive(Clone, Copy, Debug, PartialEq, Eq, Structural)]
pub enum Control {
    Refresh,
    Cancel,
    Close,
    Beginning,
    Next,
    Live,
    Reconnect(Setup),
    Answer { generation: u64, permission: u64, option: u64 },
    /// What is written is submitted.
    Submit,
}

/// A request that needs attention.
#[derive(Clone, Copy, Debug, PartialEq, Eq, Structural)]
pub enum Target {
    Native { request: u64, question: bool },
    External { generation: u64, request: u64 },
}

/// A place in the list of what needs attention.
#[derive(Clone, Copy, Debug, PartialEq, Eq, Structural)]
pub struct Position {
    pub handle: u64,
    /// Whether the conversation is one of this program.
    pub native: bool,
}

/// What can be chosen.
#[derive(Clone, Copy, Debug, PartialEq, Eq, Structural)]
pub enum Choice {
    Attention,
    AttentionOpen { position: Position, target: Option<Target> },
    Open(u64),
    Start { endpoint: u64 },
    Control(Control),
    Catalog(Option<u64>),
    Source { source: u64, start: usize },
}

/// What the entries of a menu say and do.
pub open spec fn items_of(v: Seq<(String, Choice)>) -> Seq<(Seq<char>, Choice)> {
    Seq::new(v.len(), |i: int| (v[i].0@, v[i].1))
}

fn push(items: &mut Vec<(String, Choice)>, label: String, choice: Choice)
    ensures
        items_of(final(items)@) == items_of(old(items)@).push((label@, choice)),
{
    let ghost before = items_of(items@);
    let ghost s = label@;
    items.push((label, choice));
    proof {
        assert(items_of(items@) =~= before.push((s, choice)));
    }
}

/// A menu without entries.
pub fn no_items() -> (r: Vec<(String, Choice)>)
    ensures
        items_of(r@) == Seq::<(Seq<char>, Choice)>::empty(),
{
    let r: Vec<(String, Choice)> = Vec::new();
    proof {
        assert(items_of(r@) =~= Seq::<(Seq<char>, Choice)>::empty());
    }
    r
}

/// A program whose agents can be talked to.
#[derive(Debug)]
pub struct Endpoint {
    pub handle: u64,
    pub name: String,
    pub enabled: bool,
}

/// A conversation that was kept.
#[derive(Debug)]
pub struct Saved {
    pub handle: u64,
    pub endpoint: String,
    pub id: String,
}

/// The endpoints that are enabled, of the first `n`.
pub open spec fn endpoint_items(v: Seq<Endpoint>, n: int) -> Seq<(Seq<char>, Choice)>
    decreases n,
{
    if n <= 0 {
        seq![]
    } else if v[n - 1].enabled {
        endpoint_items(v, n - 1).push(
            ("Start "@ + v[n - 1].name@, Choice::Start { endpoint: v[n - 1].handle }),
        )
    } else {
        endpoint_items(v, n - 1)
    }
}

/// The first `n` conversations that were kept, after other entries.
pub open spec fn saved_items(
    before: Seq<(Seq<char>, Choice)>,
    v: Seq<Saved>,
    n: int,
) -> Seq<(Seq<char>, Choice)>
    decreases n,
{
    if n <= 0 {
        before
    } else {
        saved_items(before, v, n - 1).push(
            (v[n - 1].endpoint@ + " · "@ + v[n - 1].id@, Choice::Open(v[n - 1].handle)),
        )
    }
}

/// The entries of the catalog: a full page of conversations leads to the next.
pub open spec fn catalog_items(endpoints: Seq<Endpoint>, saved: Seq<Saved>) -> Seq<
    (Seq<char>, Choice),
> {
    let listed = saved_items(
        endpoint_items(endpoints, endpoints.len() as int),
        saved,
        saved.len() as int,
    );
    if saved.len() == PAGE_CONVERSATIONS {
        listed.push(("Next conversations page"@, Choice::Catalog(Some(saved.last().handle))))
    } else {
        listed
    }
}

/// Lists the endpoints and the conversations that were kept.
pub fn catalog(endpoints: &Vec<Endpoint>, saved: &Vec<Saved>) -> (items: Vec<(String, Choice)>)
    ensures
        items_of(items@) == catalog_items(endpoints@, saved@),
{
    let mut items = no_items();
    let mut i: usize = 0;
    while i < endpoints.len()
        invariant
            i <= endpoints@.len(),
            items_of(items@) == endpoint_items(endpoints@, i as int),
        decreases endpoints@.len() - i,
    {
        if endpoints[i].enabled {
            push(
                &mut items,
                cat2("Start ", endpoints[i].name.as_str()),
                Choice::Start { endpoint: endpoints[i].handle },
            );
        }
        i += 1;
    }
    let ghost before = items_of(items@);
    let mut k: usize = 0;
    while k < saved.len()
        invariant
            k <= saved@.len(),
            items_of(items@) == saved_items(before, saved@, k as int),
        decreases saved@.len() - k,
    {
        push(
            &mut items,
            cat3(saved[k].endpoint.as_str(), " · ", saved[k].id.as_str()),
            Choice::Open(saved[k].handle),
        );
        k += 1;
    }
    if saved.len() == PAGE_CONVERSATIONS {
        push(
            &mut items,
            "Next conversations page".to_owned(),
            Choice::Catalog(Some(saved[saved.len() - 1].handle)),
        );
    }
    items
}

/// An answer to a request for permission.
#[derive(Debug)]
pub struct PermissionOption {
    pub id: u64,
    pub name: String,
    pub kind: String,
}

/// A request for permission.
#[derive(Debug)]
pub struct Permission {
    pub generation: u64,
    pub id: u64,
    pub title: String,
    pub options: Vec<PermissionOption>,
}

/// A block of a conversation.
#[derive(Debug)]
pub struct Block {
    pub role: String,
    pub key: String,
    pub text: String,
    pub source: u64,
}

/// What is known of a conversation.
#[derive(Debug)]
pub struct Conversation {
    pub endpoint: String,
    pub cwd: String,
    pub status: String,
    pub connected: bool,
    pub resume: bool,
    pub load: bool,
    pub permissions: Vec<Permission>,
    pub blocks: Vec<Block>,
}

/// The first `n` answers to a request, after other entries.
pub open spec fn option_items(
    before: Seq<(Seq<char>, Choice)>,
    p: Permission,
    n: int,
) -> Seq<(Seq<char>, Choice)>
    decreases n,
{
    if n <= 0 {
        before
    } else {
        let o = p.options@[n - 1];
        option_items(before, p, n - 1).push(
            (
                p.title@ + " · "@ + o.name@ + " ("@ + o.kind@ + ")"@,
                Choice::Control(
                    Control::Answer { generation: p.generation, permission: p.id, option: o.id },
                ),
            ),
        )
    }
}

/// The answers to the first `n` requests.
pub open spec fn permission_items(v: Seq<Permission>, n: int) -> Seq<(Seq<char>, Choice)>
    decreases n,
{
    if n <= 0 {
        seq![]
    } else {
        option_items(permission_items(v, n - 1), v[n - 1], v[n - 1].options@.len() as int)
    }
}

/// The entries that every conversation has.
pub open spec fn fixed_items() -> Seq<(Seq<char>, Choice)> {
    seq![
        ("Refresh"@, Choice::Control(Control::Refresh)),
        ("Cancel prompt"@, Choice::Control(Control::Cancel)),
        ("Close peer"@, Choice::Control(Control::Close)),
        ("History from beginning"@, Choice::Control(Control::Beginning)),
        ("Next history page"@, Choice::Control(Control::Next)),
        ("Follow latest"@, Choice::Control(Control::Live)),
    ]
}

/// The sources of the first `n` blocks, after other entries.
pub open spec fn block_items(
    before: Seq<(Seq<char>, Choice)>,
    v: Seq<Block>,
    n: int,
) -> Seq<(Seq<char>, Choice)>
    decreases n,
{
    if n <= 0 {
        before
    } else {
        block_items(before, v, n - 1).push(
            (
                "Source · "@ + v[n - 1].role@ + " · "@ + v[n - 1].key@,
                Choice::Source { source: v[n - 1].source, start: 0 },
            ),
        )
    }
}

/// What can be done with a conversation.
pub open spec fn control_items(c: Conversation) -> Seq<(Seq<char>, Choice)> {
    let first = permission_items(c.permissions@, c.permissions@.len() as int) + fixed_items();
    let resumed = if !c.connected && c.resume {
        first.push(
            ("Resume connection"@, Choice::Control(Control::Reconnect(Setup::Resume))),
        )
    } else {
        first
    };
    let loaded = if !c.connected && c.load {
        resumed.push(
            ("Reload remote history"@, Choice::Control(Control::Reconnect(Setup::Load))),
        )
    } else {
        resumed
    };
    block_items(loaded, c.blocks@, c.blocks@.len() as int).push(
        ("Other external conversations"@, Choice::Catalog(None)),
    )
}

/// Lists what can be done with a conversation.
pub fn controls(c: &Conversation) -> (items: Vec<(String, Choice)>)
    ensures
        items_of(items@) == control_items(*c),
{
    let mut items = no_items();
    let mut i: usize = 0;
    while i < c.permissions.len()
        invariant
            i <= c.permissions@.len(),
            items_of(items@) == permission_items(c.permissions@, i as int),
        decreases c.permissions@.len() - i,
    {
        let p = &c.permissions[i];
        let ghost before = items_of(items@);
        let mut k: usize = 0;
        while k < p.options.len()
            invariant
                k <= p.options@.len(),
                items_of(items@) == option_items(before, *p, k as int),
            decreases p.options@.len() - k,
        {
            let head = cat4(
                p.title.as_str(),
                " · ",
                p.options[k].name.as_str(),
                " (",
            );
            push(
                &mut items,
                cat3(head.as_str(), p.options[k].kind.as_str(), ")"),
                Choice::Control(
                    Control::Answer {
                        generation: p.generation,
                        permission: p.id,
                        option: p.options[k].id,
                    },
                ),
            );
            k += 1;
        }
        i += 1;
    }
    let ghost asked = items_of(items@);
    push(&mut items, "Refresh".to_owned(), Choice::Control(Control::Refresh));
    push(&mut items, "Cancel prompt".to_owned(), Choice::Control(Control::Cancel));
    push(&mut items, "Close peer".to_owned(), Choice::Control(Control::Close));
    push(
        &mut items,
        "History from beginning".to_owned(),
        Choice::Control(Control::Beginning),
    );
    push(&mut items, "Next history page".to_owned(), Choice::Control(Control::Next));
    push(&mut items, "Follow latest".to_owned(), Choice::Control(Control::Live));
    proof {
        assert(items_of(items@) =~= asked + fixed_items());
    }
    if !c.connected {
        if c.resume {
            push(
                &mut items,
                "Resume connection".to_owned(),
                Choice::Control(Control::Reconnect(Setup::Resume)),
            );
        }
        if c.load {
            push(
                &mut items,
                "Reload remote history".to_owned(),
                Choice::Control(Control::Reconnect(Setup::Load)),
            );
        }
    }
    let ghost before = items_of(items@);
    let mut k: usize = 0;
    while k < c.blocks.len()
        invariant
            k <= c.blocks@.len(),
            items_of(items@) == block_items(before, c.blocks@, k as int),
        decreases c.blocks@.len() - k,
    {
        push(
            &mut items,
            cat4("Source · ", c.blocks[k].role.as_str(), " · ", c.blocks[k].key.as_str()),
            Choice::Source { source: c.blocks[k].source, start: 0 },
        );
        k += 1;
    }
    push(
        &mut items,
        "Other external conversations".to_owned(),
        Choice::Catalog(None),
    );
    items
}

/// A conversation that needs attention.
#[derive(Debug)]
pub struct AttentionRow {
    pub position: Position,
    pub id: String,
    pub status: String,
    pub targets: Vec<Target>,
}

/// What a conversation is called there.
pub open spec fn row_label(r: AttentionRow) -> Seq<char> {
    if r.position.native {
        "Native "@ + r.id@
    } else {
        "External "@ + r.id@
    }
}

/// What a request is called there.
pub open spec fn target_label(t: Target, label: Seq<char>) -> Seq<char> {
    match t {
        Target::Native { request, question } if question => "Answer question · "@ + label,
        _ => "Review permission · "@ + label,
    }
}

/// The first `n` requests of a conversation, after other entries.
pub open spec fn target_items(
    before: Seq<(Seq<char>, Choice)>,
    r: AttentionRow,
    n: int,
) -> Seq<(Seq<char>, Choice)>
    decreases n,
{
    if n <= 0 {
        before
    } else {
        target_items(before, r, n - 1).push(
            (
                target_label(r.targets@[n - 1], row_label(r)),
                Choice::AttentionOpen {
                    position: r.position,
                    target: Some(r.targets@[n - 1]),
                },
            ),
        )
    }
}

/// The entries of the first `n` conversations.
pub open spec fn row_items(v: Seq<AttentionRow>, n: int) -> Seq<(Seq<char>, Choice)>
    decreases n,
{
    if n <= 0 {
        seq![("Refresh activity"@, Choice::Attention)]
    } else {
        let before = row_items(v, n - 1);
        let r = v[n - 1];
        if r.targets@.len() == 0 {
            before.push(
                (
                    r.status@ + " · "@ + row_label(r),
                    Choice::AttentionOpen { position: r.position, target: None },
                ),
            )
        } else {
            target_items(before, r, r.targets@.len() as int)
        }
    }
}

/// The first entries of a list.
pub open spec fn first_entries(v: Seq<(Seq<char>, Choice)>) -> Seq<(Seq<char>, Choice)> {
    if v.len() > ATTENTION_ENTRIES {
        v.take(ATTENTION_ENTRIES as int)
    } else {
        v
    }
}

/// Lists what needs attention. Says whether some of it is left out.
pub fn attention(v: &Vec<AttentionRow>, truncated: bool) -> (r: (Vec<(String, Choice)>, bool))
    ensures
        items_of(r.0@) == first_entries(row_items(v@, v@.len() as int)),
        r.1 == (truncated || row_items(v@, v@.len() as int).len() > ATTENTION_ENTRIES),
{
    let mut items = no_items();
    push(&mut items, "Refresh activity".to_owned(), Choice::Attention);
    proof {
        assert(items_of(items@) =~= row_items(v@, 0));
    }
    let mut i: usize = 0;
    while i < v.len()
        invariant
            i <= v@.len(),
            items_of(items@) == row_items(v@, i as int),
        decreases v@.len() - i,
    {
        let r = &v[i];
        let label: String = if r.position.native {
            cat2("Native ", r.id.as_str())
        } else {
            cat2("External ", r.id.as_str())
        };
        if r.targets.len() == 0 {
            push(
                &mut items,
                cat3(r.status.as_str(), " · ", label.as_str()),
                Choice::AttentionOpen { position: r.position, target: None },
            );
        } else {
            let ghost before = items_of(items@);
            let mut k: usize = 0;
            while k < r.targets.len()
                invariant
                    k <= r.targets@.len(),
                    label@ == row_label(*r),
                    items_of(items@) == target_items(before, *r, k as int),
                decreases r.targets@.len() - k,
            {
                let target = r.targets[k];
                let question: bool = match target {
                    Target::Native { request: _, question } => question,
                    Target::External { .. } => false,
                };
                let entry: String = if question {
                    cat2("Answer question · ", label.as_str())
                } else {
                    cat2("Review permission · ", label.as_str())
                };
                push(
                    &mut items,
                    entry,
                    Choice::AttentionOpen { position: r.position, target: Some(target) },
                );
                k += 1;
            }
        }
        i += 1;
    }
    let ghost all = items_of(items@);
    let over: bool = items.len() > ATTENTION_ENTRIES;
    proof {
        assert(all.len() == items@.len());
    }
    if over {
        items.truncate(ATTENTION_ENTRIES);
        proof {
            assert(items_of(items@) =~= all.take(ATTENTION_ENTRIES as int));
        }
    }
    (items, truncated || over)
}

/// The longest end of a text that has at most so many bytes.
pub open spec fn tail_of(s: Seq<char>, maximum: int) -> Seq<char>
    decreases s.len(),
{
    if s.len() == 0 || text::size(s) <= maximum {
        s
    } else {
        tail_of(s.drop_first(), maximum)
    }
}

/// The longest end of a text that has at most so many bytes.
pub fn tail(s: &str, maximum: usize) -> (r: String)
    ensures
        r@ == tail_of(s@, maximum as int),
{
    let chars = characters(s);
    let mut left: usize = byte_len(s);
    let mut i: usize = 0;
    proof {
        assert(s@.skip(0) =~= s@);
    }
    while i < chars.len() && left > maximum
        invariant
            i <= chars@.len(),
            chars@ == s@,
            left == text::size(s@.skip(i as int)),
            tail_of(s@, maximum as int) == tail_of(s@.skip(i as int), maximum as int),
        decreases chars@.len() - i,
    {
        let ghost rest = s@.skip(i as int);
        proof {
            assert(rest.drop_first() =~= s@.skip(i as int + 1));
            assert(rest =~= seq![rest[0]] + rest.drop_first());
            text::lemma_size_concat(seq![rest[0]], rest.drop_first());
            assert(text::size(seq![rest[0]]) == text::width(rest[0])) by {
                text::lemma_size_push(Seq::<char>::empty(), rest[0]);
                assert(Seq::<char>::empty().push(rest[0]) =~= seq![rest[0]]);
                assert(text::size(Seq::<char>::empty()) == 0);
            }
        }
        left = left - text::char_len(chars[i]);
        i += 1;
    }
    let r = collect(chars.as_slice(), i, chars.len());
    proof {
        assert(r@ =~= s@.skip(i as int));
    }
    r
}

/// The first `n` blocks of a conversation.
pub open spec fn transcript_of(v: Seq<Block>, n: int) -> Seq<char>
    decreases n,
{
    if n <= 0 {
        seq![]
    } else {
        transcript_of(v, n - 1) + v[n - 1].role@ + " · "@ + v[n - 1].key@ + "\n"@ + v[n - 1].text@
            + "\n"@
    }
}

/// The text of a conversation.
pub fn transcript(v: &Vec<Block>) -> (r: String)
    ensures
        r@ == transcript_of(v@, v@.len() as int),
{
    let mut out = String::new();
    let mut i: usize = 0;
    proof {
        assert(out@ =~= Seq::<char>::empty());
    }
    while i < v.len()
        invariant
            i <= v@.len(),
            out@ == transcript_of(v@, i as int),
        decreases v@.len() - i,
    {
        let head = cat5(
            out.as_str(),
            v[i].role.as_str(),
            " · ",
            v[i].key.as_str(),
            "\n",
        );
        out = cat3(head.as_str(), v[i].text.as_str(), "\n");
        i += 1;
    }
    out
}

/// What the drafts say, each with the conversation it belongs to.
pub open spec fn drafts_of(v: Seq<(String, String)>) -> Seq<(Seq<char>, Seq<char>)> {
    Seq::new(v.len(), |i: int| (v[i].0@, v[i].1@))
}

/// The drafts with one more, in the order of their conversations; it replaces the one before.
pub open spec fn with_draft(
    v: Seq<(Seq<char>, Seq<char>)>,
    id: Seq<char>,
    s: Seq<char>,
) -> Seq<(Seq<char>, Seq<char>)>
    decreases v.len(),
{
    if v.len() == 0 {
        seq![(id, s)]
    } else if v[0].0 == id {
        seq![(id, s)] + v.drop_first()
    } else if text::before(id, v[0].0) {
        seq![(id, s)] + v
    } else {
        seq![v[0]] + with_draft(v.drop_first(), id, s)
    }
}

/// The bytes of the drafts.
pub open spec fn draft_bytes(v: Seq<(Seq<char>, Seq<char>)>) -> int
    decreases v.len(),
{
    if v.len() == 0 {
        0
    } else {
        text::size(v[0].1) + draft_bytes(v.drop_first())
    }
}

/// The drafts that are kept: the first ones go while there are too many, or they are too large.
pub open spec fn kept_drafts(v: Seq<(Seq<char>, Seq<char>)>) -> Seq<(Seq<char>, Seq<char>)>
    decreases v.len(),
{
    if v.len() > 0 && (v.len() > KEPT_DRAFTS || draft_bytes(v) > KEPT_BYTES) {
        kept_drafts(v.drop_first())
    } else {
        v
    }
}

/// The draft of a conversation.
pub open spec fn draft_at(v: Seq<(Seq<char>, Seq<char>)>, id: Seq<char>) -> Option<Seq<char>>
    decreases v.len(),
{
    if v.len() == 0 {
        None
    } else if v[0].0 == id {
        Some(v[0].1)
    } else {
        draft_at(v.drop_first(), id)
    }
}

/// Puts a draft among the others.
pub fn put_draft(v: &mut Vec<(String, String)>, id: &str, s: &str)
    ensures
        drafts_of(final(v)@) == with_draft(drafts_of(old(v)@), id@, s@),
{
    let ghost all = drafts_of(v@);
    let mut i: usize = 0;
    proof {
        assert(all.skip(0) =~= all);
        assert(all.take(0) =~= Seq::<(Seq<char>, Seq<char>)>::empty());
        assert(Seq::<(Seq<char>, Seq<char>)>::empty() + with_draft(all, id@, s@) =~= with_draft(
            all,
            id@,
            s@,
        ));
    }
    while i < v.len()
        invariant
            i <= v@.len(),
            all == drafts_of(old(v)@),
            v@ == old(v)@,
            with_draft(all, id@, s@) == all.take(i as int) + with_draft(
                all.skip(i as int),
                id@,
                s@,
            ),
        decreases v@.len() - i,
    {
        let ghost rest = all.skip(i as int);
        proof {
            assert(rest[0] == all[i as int]);
            assert(all[i as int].0 == v@[i as int].0@);
        }
        if text::same(v[i].0.as_str(), id) {
            v.set(i, (id.to_owned(), s.to_owned()));
            proof {
                assert(drafts_of(v@) =~= all.take(i as int) + (seq![(id@, s@)]
                    + rest.drop_first()));
            }
            return;
        }
        if is_before(id, v[i].0.as_str()) {
            v.insert(i, (id.to_owned(), s.to_owned()));
            proof {
                assert(drafts_of(v@) =~= all.take(i as int) + (seq![(id@, s@)] + rest));
            }
            return;
        }
        proof {
            assert(rest.drop_first() =~= all.skip(i as int + 1));
            assert(all.take(i as int + 1) =~= all.take(i as int) + seq![rest[0]]);
            assert(all.take(i as int) + (seq![rest[0]] + with_draft(
                rest.drop_first(),
                id@,
                s@,
            )) =~= all.take(i as int + 1) + with_draft(all.skip(i as int + 1), id@, s@));
        }
        i += 1;
    }
    proof {
        assert(all.skip(i as int) =~= Seq::<(Seq<char>, Seq<char>)>::empty());
        assert(all.take(i as int) =~= all);
    }
    v.push((id.to_owned(), s.to_owned()));
    proof {
        assert(drafts_of(v@) =~= all + seq![(id@, s@)]);
    }
}

fn exceeds(v: &Vec<(String, String)>, from: usize, limit: usize) -> (over: bool)
    requires
        from <= v@.len(),
        limit < usize::MAX,
    ensures
        over == (draft_bytes(drafts_of(v@).skip(from as int)) > limit),
{
    let ghost all = drafts_of(v@);
    let mut total: usize = 0;
    let mut i: usize = v.len();
    proof {
        assert(all.skip(i as int) =~= Seq::<(Seq<char>, Seq<char>)>::empty());
    }
    while i > from
        invariant
            from <= i <= v@.len(),
            all == drafts_of(v@),
            0 <= draft_bytes(all.skip(i as int)),
            total == (if draft_bytes(all.skip(i as int)) > usize::MAX {
                usize::MAX as int
            } else {
                draft_bytes(all.skip(i as int))
            }),
        decreases i,
    {
        i -= 1;
        proof {
            assert(all.skip(i as int)[0] == all[i as int]);
            assert(all[i as int].1 == v@[i as int].1@);
            assert(all.skip(i as int).drop_first() =~= all.skip(i as int + 1));
        }
        total = total.saturating_add(byte_len(v[i].1.as_str()));
    }
    total > limit
}

/// Drops the first drafts while there are too many, or they are too large.
pub fn trim_drafts(v: &mut Vec<(String, String)>)
    ensures
        drafts_of(final(v)@) == kept_drafts(drafts_of(old(v)@)),
{
    let ghost all = drafts_of(v@);
    proof {
        assert(all.skip(0) =~= all);
    }
    while v.len() > 0 && (v.len() > KEPT_DRAFTS || exceeds(v, 0, KEPT_BYTES))
        invariant
            all == drafts_of(old(v)@),
            kept_drafts(all) == kept_drafts(drafts_of(v@)),
        decreases v@.len(),
    {
        let ghost now = drafts_of(v@);
        proof {
            assert(now.skip(0) =~= now);
        }
        let _ = v.remove(0);
        proof {
            assert(drafts_of(v@) =~= now.drop_first());
        }
    }
    proof {
        let now = drafts_of(v@);
        assert(now.skip(0) =~= now);
    }
}

/// The draft of a conversation, or an empty one.
pub fn find_draft(v: &Vec<(String, String)>, id: &str) -> (r: String)
    ensures
        r@ == (match draft_at(drafts_of(v@), id@) {
            Some(s) => s,
            None => seq![],
        }),
{
    let ghost all = drafts_of(v@);
    let mut i: usize = 0;
    proof {
        assert(all.skip(0) =~= all);
    }
    while i < v.len()
        invariant
            i <= v@.len(),
            all == drafts_of(v@),
            draft_at(all, id@) == draft_at(all.skip(i as int), id@),
        decreases v@.len() - i,
    {
        proof {
            assert(all.skip(i as int)[0] == all[i as int]);
            assert(all[i as int] == (v@[i as int].0@, v@[i as int].1@));
            assert(all.skip(i as int).drop_first() =~= all.skip(i as int + 1));
        }
        if text::same(v[i].0.as_str(), id) {
            return v[i].1.clone();
        }
        i += 1;
    }
    let r = String::new();
    proof {
        assert(r@ =~= Seq::<char>::empty());
    }
    r
}

/// What is shown of a part of a source.
pub open spec fn source_text(start: nat, end: nat, s: Seq<char>) -> Seq<char> {
    "Observed source · bytes "@ + number::digits(start) + "–"@ + number::digits(end) + "\n"@ + s
}

/// The bytes of a source that are shown.
pub open spec fn shown_length(n: nat) -> int {
    if n < SHOWN_BYTES {
        n as int
    } else {
        SHOWN_BYTES as int
    }
}

/// A part of a source as it is shown, and where it goes on.
pub fn show_source(start: usize, bytes: &Vec<u8>) -> (r: (String, Option<usize>))
    requires
        start + SHOWN_BYTES <= usize::MAX,
    ensures
        ({
            let n = shown_length(bytes@.len());
            &&& r.0@ == source_text(
                start as nat,
                (start + n) as nat,
                pages::lossy_text(bytes@.take(n)),
            )
            &&& r.1 == (if bytes@.len() > n || bytes@.len() == SOURCE_BYTES {
                Some((start + n) as usize)
            } else {
                None
            })
        }),
{
    let n: usize = if bytes.len() < SHOWN_BYTES {
        bytes.len()
    } else {
        SHOWN_BYTES
    };
    let part = vstd::slice::slice_subrange(bytes.as_slice(), 0, n);
    proof {
        assert(part@ =~= bytes@.take(n as int));
    }
    let s = decode_lossy(part);
    let head = cat5(
        "Observed source · bytes ",
        decimal(start as u64).as_str(),
        "–",
        decimal((start + n) as u64).as_str(),
        "\n",
    );
    (
        cat2(head.as_str(), s.as_str()),
        if bytes.len() > n || bytes.len() == SOURCE_BYTES {
            Some(start + n)
        } else {
            None
        },
    )
}

/// The last draft of a conversation is found again, as long as the drafts are within their bounds.
pub proof fn law_draft_found(v: Seq<(Seq<char>, Seq<char>)>, id: Seq<char>, s: Seq<char>)
    ensures
        draft_at(with_draft(v, id, s), id) == Some(s),
    decreases v.len(),
{
    let w = with_draft(v, id, s);
    if v.len() == 0 {
    } else if v[0].0 == id {
        assert(w[0] == (id, s));
    } else if text::before(id, v[0].0) {
        assert(w[0] == (id, s));
    } else {
        law_draft_found(v.drop_first(), id, s);
        assert(w[0] == v[0]);
        assert(w.drop_first() =~= with_draft(v.drop_first(), id, s));
    }
}

/// No more drafts are kept than may be, nor more bytes.
pub proof fn law_drafts_bounded(v: Seq<(Seq<char>, Seq<char>)>)
    ensures
        kept_drafts(v).len() <= KEPT_DRAFTS,
        draft_bytes(kept_drafts(v)) <= KEPT_BYTES,
    decreases v.len(),
{
    if v.len() > 0 && (v.len() > KEPT_DRAFTS || draft_bytes(v) > KEPT_BYTES) {
        law_drafts_bounded(v.drop_first());
    }
}

/// What is shown of a conversation is its end, within its bound.
pub proof fn law_tail(s: Seq<char>, maximum: int)
    requires
        0 <= maximum,
    ensures
        text::size(tail_of(s, maximum)) <= maximum,
        tail_of(s, maximum).len() <= s.len(),
        s.skip(s.len() - tail_of(s, maximum).len()) == tail_of(s, maximum),
    decreases s.len(),
{
    if s.len() == 0 || text::size(s) <= maximum {
        assert(s.skip(0) =~= s);
    } else {
        law_tail(s.drop_first(), maximum);
        let t = tail_of(s, maximum);
        assert(s.skip(s.len() - t.len()) =~= s.drop_first().skip(s.drop_first().len() - t.len()));
    }
}

/// What is told of a conversation that was opened and whose read position could not be recorded.
pub fn unread_told(problem: Option<&str>) -> (r: Option<String>)
    ensures
        match problem {
            Some(e) => r matches Some(s) && s@
                == "Conversation opened; read position was not confirmed: "@ + e@,
            None => r is None,
        },
{
    match problem {
        Some(e) => Some(cat2("Conversation opened; read position was not confirmed: ", e)),
        None => None,
    }
}

/// An endpoint can be started where it is enabled, and a conversation that was kept can be opened,
/// each by its own entry; a full page of 64 leads to the next.
pub proof fn law_external_catalog(
    endpoints: Seq<Endpoint>,
    saved: Seq<Saved>,
    before: Seq<(Seq<char>, Choice)>,
    n: int,
)
    requires
        0 <= n,
    ensures
        n < endpoints.len() && endpoints[n].enabled ==> endpoint_items(endpoints, n + 1)
            == endpoint_items(endpoints, n).push(
            ("Start "@ + endpoints[n].name@, Choice::Start { endpoint: endpoints[n].handle }),
        ),
        n < endpoints.len() && !endpoints[n].enabled ==> endpoint_items(endpoints, n + 1)
            == endpoint_items(endpoints, n),
        n < saved.len() ==> saved_items(before, saved, n + 1) == saved_items(before, saved, n).push(
            (saved[n].endpoint@ + " · "@ + saved[n].id@, Choice::Open(saved[n].handle)),
        ),
        saved_items(before, saved, 0) == before,
        saved.len() == 64 ==> catalog_items(endpoints, saved).last() == (
            "Next conversations page"@,
            Choice::Catalog(Some(saved[63].handle)),
        ),
        saved.len() != 64 ==> catalog_items(endpoints, saved) == saved_items(
            endpoint_items(endpoints, endpoints.len() as int),
            saved,
            saved.len() as int,
        ),
{
}

/// An answer to a request is for that request, as it was asked, and is the option that its entry
/// names.
pub proof fn law_option_items(before: Seq<(Seq<char>, Choice)>, p: Permission, n: int)
    requires
        0 <= n < p.options@.len(),
    ensures
        option_items(before, p, n + 1) == option_items(before, p, n).push(
            (
                p.title@ + " · "@ + p.options@[n].name@ + " ("@ + p.options@[n].kind@ + ")"@,
                Choice::Control(
                    Control::Answer {
                        generation: p.generation,
                        permission: p.id,
                        option: p.options@[n].id,
                    },
                ),
            ),
        ),
        option_items(before, p, 0) == before,
        permission_items(seq![], 0).len() == 0,
{
}

/// What every conversation elsewhere offers, each entry with its own control.
pub proof fn law_fixed_items()
    ensures
        fixed_items().len() == 6,
        fixed_items()[0] == ("Refresh"@, Choice::Control(Control::Refresh)),
        fixed_items()[1] == ("Cancel prompt"@, Choice::Control(Control::Cancel)),
        fixed_items()[2] == ("Close peer"@, Choice::Control(Control::Close)),
        fixed_items()[3] == ("History from beginning"@, Choice::Control(Control::Beginning)),
        fixed_items()[4] == ("Next history page"@, Choice::Control(Control::Next)),
        fixed_items()[5] == ("Follow latest"@, Choice::Control(Control::Live)),
{
}

/// A conversation that is not connected can be resumed or loaded again, as far as the other side
/// can; one that is connected can be neither.
pub proof fn law_reconnecting(c: Conversation)
    requires
        c.permissions@.len() == 0,
        c.blocks@.len() == 0,
    ensures
        ({
            let items = control_items(c);
            let resume = (
                "Resume connection"@,
                Choice::Control(Control::Reconnect(Setup::Resume)),
            );
            let load = (
                "Reload remote history"@,
                Choice::Control(Control::Reconnect(Setup::Load)),
            );
            &&& items.last() == ("Other external conversations"@, Choice::Catalog(None))
            &&& c.connected || (!c.resume && !c.load) ==> items.len() == 7
            &&& !c.connected && c.resume && !c.load ==> items.len() == 8 && items[6] == resume
            &&& !c.connected && !c.resume && c.load ==> items.len() == 8 && items[6] == load
            &&& !c.connected && c.resume && c.load ==> items.len() == 9 && items[6] == resume
                && items[7] == load
        }),
{
}

/// What waits for the person: a question is answered and a permission reviewed, each in its own
/// conversation; a conversation that waits for nothing is opened as it is.
pub proof fn law_attention(r: AttentionRow, v: Seq<AttentionRow>, label: Seq<char>, request: u64)
    ensures
        r.position.native ==> row_label(r) == "Native "@ + r.id@,
        !r.position.native ==> row_label(r) == "External "@ + r.id@,
        target_label(Target::Native { request, question: true }, label) == "Answer question · "@
            + label,
        target_label(Target::Native { request, question: false }, label) == "Review permission · "@
            + label,
        row_items(v, 0) == seq![("Refresh activity"@, Choice::Attention)],
        r.targets@.len() == 0 ==> row_items(v.push(r), v.len() as int + 1) == row_items(
            v.push(r),
            v.len() as int,
        ).push(
            (
                r.status@ + " · "@ + row_label(r),
                Choice::AttentionOpen { position: r.position, target: None },
            ),
        ),
        r.targets@.len() > 0 ==> row_items(v.push(r), v.len() as int + 1).last().1
            == (Choice::AttentionOpen {
            position: r.position,
            target: Some(r.targets@[r.targets@.len() - 1]),
        }),
{
    assert(v.push(r)[v.len() as int] == r);
}

/// At most 257 entries are listed, the first ones.
pub proof fn law_first_entries(v: Seq<(Seq<char>, Choice)>)
    ensures
        first_entries(v).len() <= 257,
        v.len() <= 257 ==> first_entries(v) == v,
        v.len() > 257 ==> first_entries(v) == v.take(257),
{
}

/// Sixteen drafts of 1 MiB together are kept at most; what goes are the first ones, and no more than
/// have to.
pub proof fn law_kept_drafts(v: Seq<(Seq<char>, Seq<char>)>) -> (n: int)
    ensures
        0 <= n <= v.len(),
        kept_drafts(v) == v.skip(n),
        kept_drafts(v).len() <= 16,
        draft_bytes(kept_drafts(v)) <= 1048576,
        n > 0 ==> v.skip(n - 1).len() > 16 || draft_bytes(v.skip(n - 1)) > 1048576,
    decreases v.len(),
{
    if v.len() > 0 && (v.len() > KEPT_DRAFTS || draft_bytes(v) > KEPT_BYTES) {
        let rest = v.drop_first();
        let k = law_kept_drafts(rest);
        assert(rest.skip(k) =~= v.skip(k + 1));
        if k > 0 {
            assert(rest.skip(k - 1) =~= v.skip(k));
        } else {
            assert(v.skip(0) =~= v);
        }
        k + 1
    } else {
        assert(v.skip(0) =~= v);
        0
    }
}

/// Of a source at most 8,000 bytes are shown, and what is shown says where it stands.
pub proof fn law_source_shown(n: nat, start: nat, end: nat, s: Seq<char>)
    ensures
        n <= 8000 ==> shown_length(n) == n,
        n > 8000 ==> shown_length(n) == 8000,
        source_text(start, end, s) == "Observed source · bytes "@ + number::digits(start) + "–"@
            + number::digits(end) + "\n"@ + s,
{
}

/// The blocks of a conversation are written one behind the other, each below its role and key, and
/// each leads to its source from the beginning.
pub proof fn law_blocks(before: Seq<(Seq<char>, Choice)>, v: Seq<Block>, n: int)
    requires
        0 <= n < v.len(),
    ensures
        transcript_of(v, n + 1) == transcript_of(v, n) + v[n].role@ + " · "@ + v[n].key@ + "\n"@
            + v[n].text@ + "\n"@,
        transcript_of(v, 0).len() == 0,
        block_items(before, v, n + 1) == block_items(before, v, n).push(
            (
                "Source · "@ + v[n].role@ + " · "@ + v[n].key@,
                Choice::Source { source: v[n].source, start: 0 },
            ),
        ),
        block_items(before, v, 0) == before,
{
}

/// Keeping the draft of one conversation leaves those of the others as they are.
pub proof fn law_other_drafts(
    v: Seq<(Seq<char>, Seq<char>)>,
    id: Seq<char>,
    s: Seq<char>,
    other: Seq<char>,
)
    requires
        other != id,
    ensures
        draft_at(with_draft(v, id, s), other) == draft_at(v, other),
    decreases v.len(),
{
    let w = with_draft(v, id, s);
    if v.len() == 0 {
        assert(w[0] == (id, s));
        assert(w.drop_first() =~= v);
    } else if v[0].0 == id {
        assert(w[0] == (id, s));
        assert(w.drop_first() =~= v.drop_first());
    } else if text::before(id, v[0].0) {
        assert(w[0] == (id, s));
        assert(w.drop_first() =~= v);
    } else {
        law_other_drafts(v.drop_first(), id, s, other);
        assert(w[0] == v[0]);
        assert(w.drop_first() =~= with_draft(v.drop_first(), id, s));
    }
}

/// What is shown of a conversation is as much of its end as its bound takes.
pub proof fn law_longest_tail(s: Seq<char>, maximum: int)
    requires
        0 <= maximum,
    ensures
        text::size(s) <= maximum ==> tail_of(s, maximum) == s,
        text::size(s) > maximum ==> text::size(
            s.skip(s.len() - tail_of(s, maximum).len() - 1),
        ) > maximum,
    decreases s.len(),
{
    if s.len() > 0 && text::size(s) > maximum {
        let rest = s.drop_first();
        law_tail(rest, maximum);
        law_longest_tail(rest, maximum);
        let n = tail_of(s, maximum).len();
        if text::size(rest) <= maximum {
            assert(s.skip(0) =~= s);
        } else {
            if n == rest.len() {
                assert(rest.skip(0) =~= rest);
            }
            assert(s.skip(s.len() - n - 1) =~= rest.skip(rest.len() - n - 1));
        }
    } else if s.len() == 0 {
        assert(text::size(s) == 0);
    }
}

} // verus!
