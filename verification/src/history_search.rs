//! Searching the text of conversations, and freezing what was found.
use sha2::Digest;
use vstd::prelude::*;
use vstd::string::*;
use crate::actions;
use crate::actions::{
    make_menu, no_items, push_item, Action, Detail, DetailView, HistoryRequest, Menu,
};
use crate::display;
use crate::display::terminal_text;
use crate::identity;
use crate::identity::encode_hex;
use crate::number;
use crate::number::decimal;
use crate::references;
use crate::text;
use crate::text::{byte_len, cat2, cat4, cat5, char_len, characters, collect, is_blank, trim};

verus! {

/// The bytes of a page of an original.
pub const ORIGINAL_PAGE: u64 = 65536;

/// The entries that the lines of an original can have.
pub const LINE_ENTRIES: usize = 128;

/// The digest that names a workspace.
pub uninterp spec fn sha256(bytes: Seq<u8>) -> Seq<u8>;

/// `Sha256::digest`: the 32 bytes of the SHA-256 digest, which depend on the bytes alone.
#[verifier::external_body]
fn digest(bytes: &[u8]) -> (r: Vec<u8>)
    ensures
        r@ == sha256(bytes@),
        r@.len() == 32,
{
    sha2::Sha256::digest(bytes).to_vec()
}

/// The name of the workspace of a directory: the digest of its path, in hexadecimal.
pub fn workspace_id(directory: &str) -> (r: String)
    ensures
        r@ == identity::hex_of(sha256(vstd::utf8::encode_utf8(directory@))),
        r@.len() == 64,
{
    let bytes = digest(directory.as_bytes());
    proof {
        identity::lemma_hex_len(bytes@);
    }
    encode_hex(bytes.as_slice())
}

/// How much of a conversation can be searched.
#[derive(Clone, Copy, Debug)]
pub struct Coverage {
    pub indexed: u64,
    pub observed: u64,
    pub omissions: u64,
    pub has_more: bool,
}

pub open spec fn coverage_text(c: Coverage) -> Seq<char> {
    "Indexed through "@ + number::digits(c.indexed as nat) + " · observed through "@
        + number::digits(c.observed as nat) + " · omitted "@ + number::digits(c.omissions as nat)
        + "\n"@ + (if c.has_more {
        "More indexing needed"@
    } else {
        "Caught up at this observation"@
    })
}

fn coverage(c: &Coverage) -> (r: String)
    ensures
        r@ == coverage_text(*c),
{
    let mut t: String = cat4(
        "Indexed through ",
        decimal(c.indexed).as_str(),
        " · observed through ",
        decimal(c.observed).as_str(),
    );
    t.append(" · omitted ");
    t.append(decimal(c.omissions).as_str());
    t.append("\n");
    t.append(
        if c.has_more {
            "More indexing needed"
        } else {
            "Caught up at this observation"
        },
    );
    t
}

/// Something that was found.
#[derive(Debug)]
pub struct Hit {
    pub id: u64,
    pub kind: String,
    pub sequence: u64,
    pub preview: String,
}

/// What comes back from the owner of the search.
#[derive(Debug)]
pub enum Reply {
    Coverage(Coverage),
    Hits { coverage: Coverage, hits: Vec<Hit>, next: Option<u64> },
    Original {
        hit: u64,
        sequence: u64,
        end: u64,
        offset: u64,
        next_offset: u64,
        has_more: bool,
        text: String,
    },
    Frozen(u64),
}

/// What a reply leads to.
#[derive(Debug)]
pub enum Answer {
    Detail(Detail),
    /// The frozen reference is shown from its start.
    Preview(u64),
}

/// The last search that was asked for, with the source that it was asked of. Sources and queries are
/// named by numbers that their owners give.
#[derive(Clone, Copy, Debug, PartialEq, Eq, Structural)]
pub struct Asked {
    pub scope: u64,
    pub query: u64,
}

/// What can be done with the index of a source, besides the last search, which keeps to its own.
pub open spec fn index_actions(scope: u64, last: Option<Asked>) -> Seq<(Seq<char>, Action)> {
    let head = seq![("Index next batch"@, Action::History(HistoryRequest::Advance { scope }))];
    let middle = match last {
        Some(asked) => head.push(
            (
                "Search indexed text"@,
                Action::History(
                    HistoryRequest::Search { scope: asked.scope, query: asked.query, after: None },
                ),
            ),
        ),
        None => head,
    };
    middle.push(
        ("Rebuild this source's index"@, Action::History(HistoryRequest::Rebuild { scope })),
    )
}

fn push_index_actions(items: &mut Vec<(String, Action)>, scope: u64, last: Option<Asked>)
    ensures
        actions::items_of(final(items)@) == actions::items_of(old(items)@) + index_actions(
            scope,
            last,
        ),
{
    let ghost head = actions::items_of(items@);
    push_item(
        items,
        "Index next batch".to_owned(),
        Action::History(HistoryRequest::Advance { scope }),
    );
    if let Some(asked) = last {
        push_item(
            items,
            "Search indexed text".to_owned(),
            Action::History(
                HistoryRequest::Search { scope: asked.scope, query: asked.query, after: None },
            ),
        );
    }
    push_item(
        items,
        "Rebuild this source's index".to_owned(),
        Action::History(HistoryRequest::Rebuild { scope }),
    );
    proof {
        assert(actions::items_of(items@) =~= head + index_actions(scope, last));
    }
}

/// At most the first `n` characters of a text.
pub open spec fn first(s: Seq<char>, n: int) -> Seq<char> {
    if s.len() <= n {
        s
    } else {
        s.take(n)
    }
}

fn take_first(s: &str, n: usize) -> (r: String)
    ensures
        r@ == first(s@, n as int),
{
    let v = characters(s);
    let end: usize = if v.len() <= n {
        v.len()
    } else {
        n
    };
    let r = collect(v.as_slice(), 0, end);
    proof {
        assert(v@.subrange(0, end as int) =~= first(s@, n as int));
    }
    r
}

/// How a hit is called.
pub open spec fn hit_label(h: Hit, i: int) -> Seq<char> {
    number::digits((i + 1) as nat) + " · "@ + h.kind@ + " · record "@ + number::digits(
        h.sequence as nat,
    )
}

/// What is said of the first `n` hits.
pub open spec fn hits_text(v: Seq<Hit>, n: int) -> Seq<char>
    decreases n,
{
    if n <= 0 {
        seq![]
    } else {
        hits_text(v, n - 1) + hit_label(v[n - 1], n - 1) + "\n"@ + display::shown_text(
            first(v[n - 1].preview@, 100),
        ) + "\n\n"@
    }
}

/// The entries of the first `n` hits.
pub open spec fn hit_items(v: Seq<Hit>, scope: u64, n: int) -> Seq<(Seq<char>, Action)>
    decreases n,
{
    if n <= 0 {
        seq![]
    } else {
        hit_items(v, scope, n - 1).push(
            (
                "Open original "@ + hit_label(v[n - 1], n - 1),
                Action::History(HistoryRequest::Read { scope, hit: v[n - 1].id, offset: 0 }),
            ),
        )
    }
}

/// What is shown of hits. `searched` is the query, where it was a search that found them.
pub open spec fn hits_detail(
    c: Coverage,
    v: Seq<Hit>,
    next: Option<u64>,
    scope: u64,
    searched: Option<u64>,
    last: Option<Asked>,
) -> DetailView {
    let items = hit_items(v, scope, v.len() as int);
    let more = if next is Some && searched is Some {
        items.push(
            (
                "More matches"@,
                Action::History(
                    HistoryRequest::Search { scope, query: searched->0, after: next },
                ),
            ),
        )
    } else {
        items
    };
    DetailView {
        text: "History text search\n"@ + coverage_text(c) + "\n\n"@ + hits_text(v, v.len() as int)
            + (if v.len() == 0 {
            "No matches in the indexed portion.\n"@
        } else {
            ""@
        }),
        previous: None,
        next: None,
        actions: Some(
            actions::menu_of(
                "History matches and indexing"@,
                more + index_actions(scope, last),
            ),
        ),
        info: history_info(),
    }
}

pub open spec fn history_info() -> Seq<char> {
    "↑/↓ scroll · ←/→ original pages · Enter actions · Esc returns to draft"@
}

/// The characters of the first line of a text, with its end.
pub open spec fn line_length(s: Seq<char>) -> nat
    decreases s.len(),
{
    if s.len() == 0 {
        0
    } else if s[0] == '\n' {
        1
    } else {
        1 + line_length(s.drop_first())
    }
}

/// A line without the characters that end it.
pub open spec fn unterminated(s: Seq<char>) -> Seq<char>
    decreases s.len(),
{
    if s.len() > 0 && (s.last() == '\r' || s.last() == '\n') {
        unterminated(s.drop_last())
    } else {
        s
    }
}

/// The entries that freeze the lines of a text, from its line `index` at byte `start` on, after
/// `count` entries. Lines of white space are left out.
pub open spec fn line_items(
    s: Seq<char>,
    scope: u64,
    hit: u64,
    index: nat,
    start: int,
    count: nat,
) -> Seq<(Seq<char>, Action)>
    decreases s.len(),
{
    if s.len() == 0 || count > LINE_ENTRIES {
        seq![]
    } else {
        let n = line_length(s);
        let visible = unterminated(s.take(n as int));
        let rest = s.skip(n as int);
        let after = start + text::size(s.take(n as int));
        if n == 0 || n > s.len() {
            seq![]
        } else if text::trimmed(visible).len() == 0 {
            line_items(rest, scope, hit, index + 1, after, count)
        } else {
            seq![
                (
                    "Freeze line "@ + number::digits(index + 1) + ": "@ + display::shown_text(
                        first(visible, 64),
                    ),
                    Action::History(
                        HistoryRequest::Freeze {
                            scope,
                            hit,
                            start: start as u64,
                            end: (start + text::size(visible)) as u64,
                        },
                    ),
                ),
            ] + line_items(rest, scope, hit, index + 1, after, count + 1)
        }
    }
}

/// What is shown of an original.
pub open spec fn original_detail(
    scope: u64,
    hit: u64,
    sequence: u64,
    end: u64,
    offset: u64,
    next_offset: u64,
    has_more: bool,
    s: Seq<char>,
) -> DetailView {
    let page = if offset < next_offset {
        seq![
            (
                "Freeze displayed original page"@,
                Action::History(
                    HistoryRequest::Freeze { scope, hit, start: offset, end: next_offset },
                ),
            ),
        ]
    } else {
        seq![]
    };
    DetailView {
        text: "Verified original · record "@ + number::digits(sequence as nat) + "\nBytes "@
            + number::digits(offset as nat) + "–"@ + number::digits(next_offset as nat) + " of "@
            + number::digits(end as nat) + "\n\n"@ + display::shown_text(s),
        previous: if offset > 0 {
            Some(
                Action::History(
                    HistoryRequest::Read {
                        scope,
                        hit,
                        offset: references::back_by(offset, ORIGINAL_PAGE),
                    },
                ),
            )
        } else {
            None
        },
        next: if has_more {
            Some(Action::History(HistoryRequest::Read { scope, hit, offset: next_offset }))
        } else {
            None
        },
        actions: Some(
            actions::menu_of(
                "Select original page or line (first 128)"@,
                page + line_items(s, scope, hit, 0, offset as int, page.len()),
            ),
        ),
        info: history_info(),
    }
}

proof fn lemma_line(s: Seq<char>, k: int)
    requires
        0 <= k < s.len(),
        s[k] == '\n' || k + 1 == s.len(),
        forall|j: int| 0 <= j < k ==> s[j] != '\n',
    ensures
        line_length(s) == k + 1,
    decreases s.len(),
{
    if k > 0 {
        assert forall|j: int| 0 <= j < k - 1 implies s.drop_first()[j] != '\n' by {
            assert(s.drop_first()[j] == s[j + 1]);
        }
        lemma_line(s.drop_first(), k - 1);
    } else if s[0] != '\n' {
        assert(s.drop_first().len() == 0);
        assert(line_length(s.drop_first()) == 0);
    }
}

fn trim_line(v: &Vec<char>, from: usize, to: usize) -> (end: usize)
    requires
        from <= to <= v@.len(),
    ensures
        from <= end <= to,
        v@.subrange(from as int, end as int) == unterminated(v@.subrange(from as int, to as int)),
{
    let mut end: usize = to;
    while end > from && (v[end - 1] == '\r' || v[end - 1] == '\n')
        invariant
            from <= end <= to,
            to <= v@.len(),
            unterminated(v@.subrange(from as int, end as int)) == unterminated(
                v@.subrange(from as int, to as int),
            ),
        decreases end,
    {
        proof {
            assert(v@.subrange(from as int, end as int).drop_last() =~= v@.subrange(
                from as int,
                end as int - 1,
            ));
            assert(v@.subrange(from as int, end as int).last() == v@[end as int - 1]);
        }
        end -= 1;
    }
    proof {
        let s = v@.subrange(from as int, end as int);
        if end > from {
            assert(s.last() == v@[end as int - 1]);
        }
    }
    end
}

fn line_end(v: &Vec<char>, from: usize) -> (to: usize)
    requires
        from < v@.len(),
    ensures
        from < to <= v@.len(),
        to - from == line_length(v@.skip(from as int)),
{
    let mut k: usize = from;
    while k < v.len() - 1 && v[k] != '\n'
        invariant
            from <= k < v@.len(),
            forall|j: int| from <= j < k ==> v@[j] != '\n',
        decreases v@.len() - k,
    {
        k += 1;
    }
    proof {
        let s = v@.skip(from as int);
        assert(s[k - from] == v@[k as int]);
        assert forall|j: int| 0 <= j < k - from implies s[j] != '\n' by {
            assert(s[j] == v@[from + j]);
        }
        lemma_line(s, k - from);
    }
    k + 1
}

fn push_lines(
    items: &mut Vec<(String, Action)>,
    s: &str,
    scope: u64,
    hit: u64,
    offset: u64,
)
    requires
        offset + text::size(s@) <= u64::MAX,
        old(items)@.len() <= 1,
    ensures
        actions::items_of(final(items)@) == actions::items_of(old(items)@) + line_items(
            s@,
            scope,
            hit,
            0,
            offset as int,
            old(items)@.len(),
        ),
{
    let v = characters(s);
    let n: usize = v.len();
    let total: usize = byte_len(s);
    let ghost base = actions::items_of(items@);
    let ghost all = line_items(s@, scope, hit, 0, offset as int, items@.len());
    let mut from: usize = 0;
    let mut start: u64 = offset;
    let mut index: u64 = 0;
    proof {
        assert(s@.skip(0) =~= s@);
        assert(s@.take(0) =~= Seq::<char>::empty());
        assert(base + all =~= base + line_items(
            s@.skip(0),
            scope,
            hit,
            0,
            offset as int,
            items@.len(),
        ));
    }
    while from < n && items.len() <= LINE_ENTRIES
        invariant
            v@ == s@,
            n == v@.len(),
            total == text::size(s@),
            from <= n,
            index <= from,
            offset + total <= u64::MAX,
            start == offset + text::size(s@.take(from as int)),
            base + all == actions::items_of(items@) + line_items(
                s@.skip(from as int),
                scope,
                hit,
                index as nat,
                start as int,
                items@.len(),
            ),
        decreases n - from,
    {
        let ghost rest = s@.skip(from as int);
        let ghost before = actions::items_of(items@);
        let ghost count = items@.len();
        let to: usize = line_end(&v, from);
        let end: usize = trim_line(&v, from, to);
        let visible = collect(v.as_slice(), from, end);
        let line = collect(v.as_slice(), from, to);
        proof {
            assert(rest.take(to - from) =~= line@);
            assert(v@.subrange(from as int, to as int) =~= line@);
            assert(rest.skip(to - from) =~= s@.skip(to as int));
            assert(s@.take(to as int) =~= s@.take(from as int) + line@);
            text::lemma_size_concat(s@.take(from as int), line@);
            text::lemma_size_split(s@, to as int);
            assert(line@ =~= visible@ + v@.subrange(end as int, to as int));
            text::lemma_size_concat(visible@, v@.subrange(end as int, to as int));
        }
        if !trim(visible.as_str()).as_str().is_empty() {
            let label = cat4(
                "Freeze line ",
                decimal(index + 1).as_str(),
                ": ",
                terminal_text(take_first(visible.as_str(), 64).as_str()).as_str(),
            );
            let stop: u64 = start + byte_len(visible.as_str()) as u64;
            let ghost entry = (
                label@,
                Action::History(HistoryRequest::Freeze { scope, hit, start, end: stop }),
            );
            push_item(
                items,
                label,
                Action::History(HistoryRequest::Freeze { scope, hit, start, end: stop }),
            );
            proof {
                let later = line_items(
                    s@.skip(to as int),
                    scope,
                    hit,
                    (index + 1) as nat,
                    start + text::size(line@),
                    count + 1,
                );
                assert(actions::items_of(items@).len() == items@.len());
                assert(before + (seq![entry] + later) =~= before.push(entry) + later);
            }
        }
        start = start + byte_len(line.as_str()) as u64;
        index += 1;
        from = to;
    }
    proof {
        if from == n {
            assert(s@.skip(n as int).len() == 0);
        }
        let last = line_items(
            s@.skip(from as int),
            scope,
            hit,
            index as nat,
            start as int,
            items@.len(),
        );
        assert(last =~= Seq::<(Seq<char>, Action)>::empty());
        assert(actions::items_of(items@) + last =~= actions::items_of(items@));
    }
}

fn show_hits(
    c: &Coverage,
    hits: &Vec<Hit>,
    next: Option<u64>,
    scope: u64,
    searched: Option<u64>,
    last: Option<Asked>,
) -> (d: Detail)
    ensures
        d@ == hits_detail(*c, hits@, next, scope, searched, last),
{
    let mut t: String = cat2("History text search\n", coverage(c).as_str());
    t.append("\n\n");
    let ghost head = t@;
    let mut items = no_items();
    let mut i: usize = 0;
    proof {
        assert(head =~= head + hits_text(hits@, 0));
    }
    while i < hits.len()
        invariant
            i <= hits@.len(),
            t@ == head + hits_text(hits@, i as int),
            actions::items_of(items@) == hit_items(hits@, scope, i as int),
        decreases hits@.len() - i,
    {
        let label = cat5(
            decimal((i + 1) as u64).as_str(),
            " · ",
            hits[i].kind.as_str(),
            " · record ",
            decimal(hits[i].sequence).as_str(),
        );
        proof {
            assert(label@ =~= hit_label(hits@[i as int], i as int));
        }
        t.append(label.as_str());
        t.append("\n");
        t.append(terminal_text(take_first(hits[i].preview.as_str(), 100).as_str()).as_str());
        t.append("\n\n");
        proof {
            assert(t@ =~= head + hits_text(hits@, i as int + 1));
        }
        let name = cat2("Open original ", label.as_str());
        push_item(
            &mut items,
            name,
            Action::History(HistoryRequest::Read { scope, hit: hits[i].id, offset: 0 }),
        );
        i += 1;
    }
    if hits.len() == 0 {
        t.append("No matches in the indexed portion.\n");
    } else {
        t.append("");
    }
    if let Some(q) = searched {
        if next.is_some() {
            push_item(
                &mut items,
                "More matches".to_owned(),
                Action::History(HistoryRequest::Search { scope, query: q, after: next }),
            );
        }
    }
    push_index_actions(&mut items, scope, last);
    let d = Detail {
        text: t,
        previous: None,
        next: None,
        actions: Some(make_menu("History matches and indexing".to_owned(), items)),
        info:
            "↑/↓ scroll · ←/→ original pages · Enter actions · Esc returns to draft".to_owned(),
    };
    proof {
        assert(d@.text =~= hits_detail(*c, hits@, next, scope, searched, last).text);
    }
    d
}

/// Shows what came back from the owner of the search. `searched` is the query of the request, if
/// it was a search, and `last` the last search that was asked for.
pub fn show_history(reply: &Reply, scope: u64, searched: Option<u64>, last: Option<Asked>) -> (r:
    Answer)
    requires
        reply matches Reply::Original { offset, text: s, .. } ==> offset + text::size(s@)
            <= u64::MAX,
    ensures
        match reply {
            Reply::Coverage(c) => r matches Answer::Detail(d) && d@ == (DetailView {
                text: "History indexing\n"@ + coverage_text(*c),
                previous: None,
                next: None,
                actions: Some(
                    actions::menu_of("History indexing actions"@, index_actions(scope, last)),
                ),
                info: history_info(),
            }),
            Reply::Hits { coverage: c, hits, next } => r matches Answer::Detail(d) && d@
                == hits_detail(*c, hits@, *next, scope, searched, last),
            Reply::Original { hit, sequence, end, offset, next_offset, has_more, text: s } => r
                matches Answer::Detail(d) && d@ == original_detail(
                scope,
                *hit,
                *sequence,
                *end,
                *offset,
                *next_offset,
                *has_more,
                s@,
            ),
            Reply::Frozen(id) => r == Answer::Preview(*id),
        },
{
    match reply {
        Reply::Coverage(c) => {
            let mut items = no_items();
            push_index_actions(&mut items, scope, last);
            proof {
                assert(actions::items_of(items@) =~= index_actions(scope, last));
            }
            Answer::Detail(
                Detail {
                    text: cat2("History indexing\n", coverage(c).as_str()),
                    previous: None,
                    next: None,
                    actions: Some(make_menu("History indexing actions".to_owned(), items)),
                    info:
                        "↑/↓ scroll · ←/→ original pages · Enter actions · Esc returns to draft".to_owned(),
                },
            )
        },
        Reply::Hits { coverage: c, hits, next } => Answer::Detail(
            show_hits(c, hits, *next, scope, searched, last),
        ),
        Reply::Original { hit, sequence, end, offset, next_offset, has_more, text: s } => {
            let mut t: String = cat4(
                "Verified original · record ",
                decimal(*sequence).as_str(),
                "\nBytes ",
                decimal(*offset).as_str(),
            );
            t.append("–");
            t.append(decimal(*next_offset).as_str());
            t.append(" of ");
            t.append(decimal(*end).as_str());
            t.append("\n\n");
            t.append(terminal_text(s.as_str()).as_str());
            let mut items = no_items();
            if *offset < *next_offset {
                push_item(
                    &mut items,
                    "Freeze displayed original page".to_owned(),
                    Action::History(
                        HistoryRequest::Freeze {
                            scope,
                            hit: *hit,
                            start: *offset,
                            end: *next_offset,
                        },
                    ),
                );
            }
            proof {
                assert(actions::items_of(items@).len() == items@.len());
                assert(actions::items_of(items@) =~= (if *offset < *next_offset {
                    seq![
                        (
                            "Freeze displayed original page"@,
                            Action::History(
                                HistoryRequest::Freeze {
                                    scope,
                                    hit: *hit,
                                    start: *offset,
                                    end: *next_offset,
                                },
                            ),
                        ),
                    ]
                } else {
                    seq![]
                }));
            }
            push_lines(&mut items, s.as_str(), scope, *hit, *offset);
            Answer::Detail(
                Detail {
                    text: t,
                    previous: if *offset > 0 {
                        Some(
                            Action::History(
                                HistoryRequest::Read {
                                    scope,
                                    hit: *hit,
                                    offset: offset.saturating_sub(ORIGINAL_PAGE),
                                },
                            ),
                        )
                    } else {
                        None
                    },
                    next: if *has_more {
                        Some(
                            Action::History(
                                HistoryRequest::Read { scope, hit: *hit, offset: *next_offset },
                            ),
                        )
                    } else {
                        None
                    },
                    actions: Some(
                        make_menu(
                            "Select original page or line (first 128)".to_owned(),
                            items,
                        ),
                    ),
                    info:
                        "↑/↓ scroll · ←/→ original pages · Enter actions · Esc returns to draft".to_owned(),
                },
            )
        },
        Reply::Frozen(id) => Answer::Preview(*id),
    }
}

/// A search of one conversation.
#[derive(Debug)]
pub struct Search {
    /// The name of the workspace of the directory.
    pub workspace: String,
    /// The number of the conversation.
    pub conversation: u64,
    pub query: String,
    /// Where the search goes on.
    pub after: Option<u64>,
}

/// The search for a text in a conversation of a directory, from its beginning.
pub fn search_history(directory: &str, conversation: u64, query: String) -> (r: Search)
    ensures
        r.workspace@ == identity::hex_of(sha256(vstd::utf8::encode_utf8(directory@))),
        r.conversation == conversation,
        r.query@ == query@,
        r.after is None,
{
    Search { workspace: workspace_id(directory), conversation, query, after: None }
}

/// What is told while the owner of the history is asked, or that there is none.
pub fn history_request(available: bool) -> (r: Result<&'static str, &'static str>)
    ensures
        if available {
            r matches Ok(s) && s@ == "Reading history owner…"@
        } else {
            r matches Err(s) && s@ == "History text search is unavailable"@
        },
{
    if available {
        Ok("Reading history owner…")
    } else {
        Err("History text search is unavailable")
    }
}

/// A hit leads to its original, from the beginning, in the source that was searched; more matches
/// are looked for with the same query behind the last one, where a search found them.
pub proof fn law_hits(
    c: Coverage,
    v: Seq<Hit>,
    next: Option<u64>,
    scope: u64,
    searched: Option<u64>,
    last: Option<Asked>,
    i: int,
)
    requires
        0 <= i < v.len(),
    ensures
        ({
            let d = hits_detail(c, v, next, scope, searched, last);
            let n = v.len() as int;
            &&& d.actions matches Some(menu)
            &&& menu.items[i].1 == Action::History(
                HistoryRequest::Read { scope, hit: v[i].id, offset: 0 },
            )
            &&& next is Some && searched is Some ==> menu.items[n] == (
                "More matches"@,
                Action::History(HistoryRequest::Search { scope, query: searched->0, after: next }),
            )
            &&& next is None || searched is None ==> menu.items[n] == (
                "Index next batch"@,
                Action::History(HistoryRequest::Advance { scope }),
            )
            &&& menu.items.last() == (
                "Rebuild this source's index"@,
                Action::History(HistoryRequest::Rebuild { scope }),
            )
        }),
{
    lemma_hit_items(v, scope, v.len() as int, i);
}

proof fn lemma_hit_items(v: Seq<Hit>, scope: u64, n: int, i: int)
    requires
        0 <= n <= v.len(),
    ensures
        hit_items(v, scope, n).len() == n,
        0 <= i < n ==> hit_items(v, scope, n)[i] == (
            "Open original "@ + hit_label(v[i], i),
            Action::History(HistoryRequest::Read { scope, hit: v[i].id, offset: 0 }),
        ),
    decreases n,
{
    if n > 0 {
        lemma_hit_items(v, scope, n - 1, i);
    }
}

/// The last search is offered again in its own source, whatever the source in front is.
pub proof fn law_search_again(scope: u64, asked: Asked)
    ensures
        index_actions(scope, Some(asked)).len() == 3,
        index_actions(scope, Some(asked))[1] == (
            "Search indexed text"@,
            Action::History(
                HistoryRequest::Search { scope: asked.scope, query: asked.query, after: None },
            ),
        ),
        index_actions(scope, None).len() == 2,
        index_actions(scope, None)[0].1 == Action::History(HistoryRequest::Advance { scope }),
        index_actions(scope, None)[1].1 == Action::History(HistoryRequest::Rebuild { scope }),
{
}

/// The pages of an original go back by 64 KiB or to the beginning, and on where there is more.
pub proof fn law_original_pages(
    scope: u64,
    hit: u64,
    sequence: u64,
    end: u64,
    offset: u64,
    next_offset: u64,
    has_more: bool,
    s: Seq<char>,
)
    ensures
        ({
            let d = original_detail(scope, hit, sequence, end, offset, next_offset, has_more, s);
            let read = |at: u64| Action::History(HistoryRequest::Read { scope, hit, offset: at });
            &&& offset >= 65536 ==> d.previous == Some(read((offset - 65536) as u64))
            &&& 0 < offset < 65536 ==> d.previous == Some(read(0))
            &&& offset == 0 ==> d.previous is None
            &&& has_more ==> d.next == Some(read(next_offset))
            &&& !has_more ==> d.next is None
            &&& offset < next_offset ==> (d.actions matches Some(menu) && menu.items.len() > 0
                && menu.items[0] == (
                "Freeze displayed original page"@,
                Action::History(
                    HistoryRequest::Freeze { scope, hit, start: offset, end: next_offset },
                ),
            ))
        }),
{
}

/// The first line of a text goes up to and with its first newline; what is frozen of it is the line
/// without what ends it, and a line of white space is passed over.
pub proof fn law_frozen_line(
    line: Seq<char>,
    rest: Seq<char>,
    scope: u64,
    hit: u64,
    index: nat,
    start: int,
    count: nat,
)
    requires
        forall|i: int| 0 <= i < line.len() ==> line[i] != '\n',
        line.len() == 0 || line.last() != '\r',
        count <= 128,
    ensures
        ({
            let s = line + seq!['\n'] + rest;
            let after = start + text::size(line) + 1;
            let items = line_items(s, scope, hit, index, start, count);
            &&& text::trimmed(line).len() == 0 ==> items == line_items(
                rest,
                scope,
                hit,
                index + 1,
                after,
                count,
            )
            &&& text::trimmed(line).len() > 0 ==> items.len() > 0 && items[0].1 == Action::History(
                HistoryRequest::Freeze {
                    scope,
                    hit,
                    start: start as u64,
                    end: (start + text::size(line)) as u64,
                },
            ) && items.drop_first() == line_items(
                rest,
                scope,
                hit,
                index + 1,
                after,
                count + 1,
            )
        }),
{
    let s = line + seq!['\n'] + rest;
    let n = line.len() + 1;
    lemma_line_length(line, rest);
    let taken = s.take(n as int);
    assert(taken =~= line.push('\n'));
    assert(taken.drop_last() =~= line);
    assert(unterminated(line) == line);
    assert(unterminated(taken) == line);
    assert(s.skip(n as int) =~= rest);
    text::lemma_size_push(line, '\n');
    let items = line_items(s, scope, hit, index, start, count);
    let after = start + text::size(line) + 1;
    if text::trimmed(line).len() > 0 {
        let more = line_items(rest, scope, hit, index + 1, after, count + 1);
        assert(items.drop_first() =~= more);
    }
}

proof fn lemma_line_length(line: Seq<char>, rest: Seq<char>)
    requires
        forall|i: int| 0 <= i < line.len() ==> line[i] != '\n',
    ensures
        line_length(line + seq!['\n'] + rest) == line.len() + 1,
    decreases line.len(),
{
    let s = line + seq!['\n'] + rest;
    if line.len() > 0 {
        lemma_line_length(line.drop_first(), rest);
        assert(s.drop_first() =~= line.drop_first() + seq!['\n'] + rest);
        assert(s[0] == line[0]);
    } else {
        assert(s[0] == '\n');
    }
}

/// What is said of the index: how far it goes, how far the source was observed, what was left out,
/// and whether there is more.
pub proof fn law_coverage(c: Coverage)
    ensures
        c.has_more ==> coverage_text(c) == "Indexed through "@ + number::digits(c.indexed as nat)
            + " · observed through "@ + number::digits(c.observed as nat) + " · omitted "@
            + number::digits(c.omissions as nat) + "\n"@ + "More indexing needed"@,
        !c.has_more ==> coverage_text(c) == "Indexed through "@ + number::digits(c.indexed as nat)
            + " · observed through "@ + number::digits(c.observed as nat) + " · omitted "@
            + number::digits(c.omissions as nat) + "\n"@ + "Caught up at this observation"@,
{
}

} // verus!
