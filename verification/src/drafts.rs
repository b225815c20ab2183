//! The drafts of the conversations that are not in front.
use vstd::prelude::*;
use vstd::string::*;
use crate::actions::Source;
use crate::editor;
use crate::editor::{Editor, EditorView, MAX_RETAINED};
use crate::references;
use crate::references::{ReferenceView, References, DRAFT_BYTES};
use crate::text;

verus! {

/// A place in a conversation.
#[derive(Clone, Copy, Debug, PartialEq, Eq, Structural)]
pub struct Anchor {
    pub source: Source,
    pub offset: u64,
}

/// What a conversation keeps while another is in front. Models, efforts and commands are named by
/// numbers that their owners give.
#[derive(Debug)]
pub struct Draft {
    pub editor: Editor,
    pub references: References,
    pub model: Option<u64>,
    pub effort: Option<u64>,
    pub top: Option<Anchor>,
    /// The folds that were made, by the text they hide.
    pub folds: Vec<(String, bool)>,
    /// The identities of the pending inputs that came from here.
    pub owned: Vec<String>,
    /// The command that was submitted.
    pub command: u64,
}

/// What a [`Draft`] says.
#[verifier::ext_equal]
pub struct DraftView {
    pub editor: EditorView,
    pub references: Seq<ReferenceView>,
    pub model: Option<u64>,
    pub effort: Option<u64>,
    pub top: Option<Anchor>,
    pub folds: Seq<(Seq<char>, bool)>,
    pub owned: Seq<Seq<char>>,
    pub command: u64,
}

pub open spec fn folds_of(v: Seq<(String, bool)>) -> Seq<(Seq<char>, bool)> {
    Seq::new(v.len(), |i: int| (v[i].0@, v[i].1))
}

impl View for Draft {
    type V = DraftView;

    open spec fn view(&self) -> DraftView {
        DraftView {
            editor: self.editor@,
            references: self.references@,
            model: self.model,
            effort: self.effort,
            top: self.top,
            folds: folds_of(self.folds@),
            owned: text::views(self.owned@),
            command: self.command,
        }
    }
}

/// A draft without anything, whose command is given.
pub open spec fn blank(command: u64) -> DraftView {
    DraftView {
        editor: EditorView::blank(),
        references: seq![],
        model: None,
        effort: None,
        top: None,
        folds: seq![],
        owned: seq![],
        command,
    }
}

pub fn blank_draft(command: u64) -> (r: Draft)
    ensures
        r@ == blank(command),
        r.editor.wf(),
{
    let r = Draft {
        editor: Editor::default(),
        references: References::new(),
        model: None,
        effort: None,
        top: None,
        folds: Vec::new(),
        owned: Vec::new(),
        command,
    };
    proof {
        assert(r@ =~= blank(command)) by {
            assert(folds_of(r.folds@) =~= Seq::<(Seq<char>, bool)>::empty());
            assert(text::views(r.owned@) =~= Seq::<Seq<char>>::empty());
        }
    }
    r
}

/// The folds of a list without the first `n`, with room for no more.
pub fn folds_from(folds: &Vec<(String, bool)>, n: usize) -> (r: Vec<(String, bool)>)
    requires
        n <= folds@.len(),
    ensures
        folds_of(r@) == folds_of(folds@).skip(n as int),
{
    let mut rest: Vec<(String, bool)> = Vec::with_capacity(folds.len() - n);
    let mut i: usize = n;
    while i < folds.len()
        invariant
            n <= i <= folds@.len(),
            rest@.len() == i - n,
            forall|k: int|
                0 <= k < rest@.len() ==> (#[trigger] rest@[k]).0@ == folds@[n + k].0@ && rest@[k].1
                    == folds@[n + k].1,
        decreases folds@.len() - i,
    {
        rest.push((folds[i].0.clone(), folds[i].1));
        i += 1;
    }
    proof {
        assert(folds_of(rest@) =~= folds_of(folds@).skip(n as int));
    }
    rest
}

/// A draft that is kept.
#[derive(Debug)]
pub struct Saved {
    pub session: u64,
    pub draft: Draft,
    /// The attachment at which it was left.
    pub last_used: u64,
}

/// What a [`Saved`] says.
pub struct SavedView {
    pub session: u64,
    pub draft: DraftView,
    pub last_used: u64,
}

impl View for Saved {
    type V = SavedView;

    open spec fn view(&self) -> SavedView {
        SavedView { session: self.session, draft: self.draft@, last_used: self.last_used }
    }
}

pub open spec fn saved_of(v: Seq<Saved>) -> Seq<SavedView> {
    Seq::new(v.len(), |i: int| v[i]@)
}

/// The draft of a conversation, if it is kept.
pub open spec fn found(v: Seq<SavedView>, session: u64) -> Option<DraftView>
    decreases v.len(),
{
    if v.len() == 0 {
        None
    } else if v.last().session == session {
        Some(v.last().draft)
    } else {
        found(v.drop_last(), session)
    }
}

/// The drafts of the other conversations.
pub open spec fn others(v: Seq<SavedView>, session: u64) -> Seq<SavedView>
    decreases v.len(),
{
    if v.len() == 0 {
        seq![]
    } else {
        let before = others(v.drop_last(), session);
        if v.last().session == session {
            before
        } else {
            before.push(v.last())
        }
    }
}

/// The drafts of all conversations.
#[derive(Debug)]
pub struct Drafts {
    session: u64,
    draft: Draft,
    saved: Vec<Saved>,
}

/// What [`Drafts`] say.
#[verifier::ext_equal]
pub struct DraftsView {
    /// The conversation in front, and its draft.
    pub session: u64,
    pub draft: DraftView,
    /// The drafts of the others, in the order in which they were left.
    pub saved: Seq<SavedView>,
}

impl View for Drafts {
    type V = DraftsView;

    closed spec fn view(&self) -> DraftsView {
        DraftsView {
            session: self.session,
            draft: self.draft@,
            saved: saved_of(self.saved@),
        }
    }
}

/// The drafts with the one in front kept.
pub open spec fn left(v: DraftsView, generation: u64) -> Seq<SavedView> {
    others(v.saved, v.session).push(
        SavedView { session: v.session, draft: v.draft, last_used: generation },
    )
}

/// Another conversation in front, with the draft that was kept of it.
pub open spec fn switched(v: DraftsView, session: u64, generation: u64, command: u64) -> DraftsView {
    let all = left(v, generation);
    DraftsView {
        session,
        draft: match found(all, session) {
            Some(d) => d,
            None => blank(command),
        },
        saved: others(all, session),
    }
}

impl Drafts {
    /// Every editor is well formed.
    pub closed spec fn wf(&self) -> bool {
        &&& self.draft.editor.wf()
        &&& forall|i: int| 0 <= i < self.saved@.len() ==> (#[trigger] self.saved@[i]).draft.editor.wf()
    }

    /// The drafts at the start: one in front.
    pub fn new(session: u64, draft: Draft) -> (r: Drafts)
        requires
            draft.editor.wf(),
        ensures
            r.wf(),
            r@ == (DraftsView { session, draft: draft@, saved: seq![] }),
    {
        let r = Drafts { session, draft, saved: Vec::new() };
        proof {
            assert(saved_of(r.saved@) =~= Seq::<SavedView>::empty());
        }
        r
    }

    /// The conversation in front.
    pub fn session(&self) -> (r: u64)
        ensures
            r == self@.session,
    {
        self.session
    }

    /// The draft in front.
    pub fn draft(&self) -> (r: &Draft)
        requires
            self.wf(),
        ensures
            r@ == self@.draft,
            r.editor.wf(),
    {
        &self.draft
    }

    /// Puts another draft in front, for the same conversation, and hands out the one before.
    pub fn replace(&mut self, draft: Draft) -> (r: Draft)
        requires
            old(self).wf(),
            draft.editor.wf(),
        ensures
            final(self).wf(),
            r@ == old(self)@.draft,
            r.editor.wf(),
            final(self)@ == (DraftsView { draft: draft@, ..old(self)@ }),
    {
        let mut other = draft;
        std::mem::swap(&mut other, &mut self.draft);
        other
    }

    /// The number of drafts that are kept.
    pub fn len(&self) -> (n: usize)
        ensures
            n == self@.saved.len(),
    {
        self.saved.len()
    }

    /// A draft that is kept.
    pub fn saved(&self, i: usize) -> (r: &Saved)
        requires
            i < self@.saved.len(),
        ensures
            r@ == self@.saved[i as int],
    {
        &self.saved[i]
    }

    /// Drops the first folds of a draft that is kept. The list has room for no more than are left.
    pub fn drop_folds(&mut self, i: usize, n: usize)
        requires
            old(self).wf(),
            i < old(self)@.saved.len(),
            n <= old(self)@.saved[i as int].draft.folds.len(),
        ensures
            final(self).wf(),
            final(self)@ == (DraftsView {
                saved: old(self)@.saved.update(
                    i as int,
                    SavedView {
                        draft: DraftView {
                            folds: old(self)@.saved[i as int].draft.folds.skip(n as int),
                            ..old(self)@.saved[i as int].draft
                        },
                        ..old(self)@.saved[i as int]
                    },
                ),
                ..old(self)@
            }),
    {
        let ghost before = self.saved@;
        let rest = folds_from(&self.saved[i].draft.folds, n);
        self.saved[i].draft.folds = rest;
        proof {
            assert(saved_of(self.saved@) =~= saved_of(before).update(i as int, self.saved@[i as int]@));
        }
    }

    /// Says whether a draft of a conversation is kept.
    pub fn keeps(&self, session: u64) -> (r: bool)
        ensures
            r == (found(self@.saved, session) is Some),
    {
        let ghost all = saved_of(self.saved@);
        let mut i: usize = self.saved.len();
        proof {
            assert(all.take(i as int) =~= all);
        }
        while i > 0
            invariant
                i <= self.saved@.len(),
                all == saved_of(self.saved@),
                found(all, session) == found(all.take(i as int), session),
            decreases i,
        {
            proof {
                assert(all.take(i as int).last() == self.saved@[i - 1]@);
                assert(all.take(i as int).drop_last() =~= all.take(i - 1));
            }
            i -= 1;
            if self.saved[i].session == session {
                return true;
            }
        }
        false
    }

    /// The pending inputs of the conversations that are not in front.
    pub open spec fn owned_by(v: Seq<SavedView>, n: int) -> int
        decreases n,
    {
        if n <= 0 {
            0
        } else {
            Drafts::owned_by(v, n - 1) + v[n - 1].draft.owned.len()
        }
    }

    pub fn owned_elsewhere(&self) -> (n: usize)
        ensures
            n == (if Drafts::owned_by(self@.saved, self@.saved.len() as int) > usize::MAX {
                usize::MAX as int
            } else {
                Drafts::owned_by(self@.saved, self@.saved.len() as int)
            }),
    {
        let ghost all = saved_of(self.saved@);
        let mut n: usize = 0;
        let mut i: usize = 0;
        while i < self.saved.len()
            invariant
                i <= self.saved@.len(),
                all == saved_of(self.saved@),
                0 <= Drafts::owned_by(all, i as int),
                n == (if Drafts::owned_by(all, i as int) > usize::MAX {
                    usize::MAX as int
                } else {
                    Drafts::owned_by(all, i as int)
                }),
            decreases self.saved@.len() - i,
        {
            proof {
                assert(all[i as int].draft.owned.len() == self.saved@[i as int].draft.owned@.len());
            }
            n = n.saturating_add(self.saved[i].draft.owned.len());
            i += 1;
        }
        n
    }

    /// The bytes that the first `n` drafts hold: their texts, the histories of those, and their
    /// references.
    pub open spec fn held_by(v: Seq<SavedView>, n: int) -> int
        decreases n,
    {
        if n <= 0 {
            0
        } else {
            Drafts::held_by(v, n - 1) + text::size(v[n - 1].draft.editor.text)
                + v[n - 1].draft.editor.history.bytes() + references::total_size(
                v[n - 1].draft.references,
            )
        }
    }

    /// What the references in front hold, and all that is not in front.
    pub open spec fn held(v: DraftsView, front: Seq<ReferenceView>) -> int {
        references::total_size(front) + Drafts::held_by(v.saved, v.saved.len() as int)
    }

    /// The bytes that the first `n` of the drafts that are kept retain: what their texts have
    /// allocated, the histories of those, and their references.
    pub closed spec fn retained_by(&self, n: int) -> int
        decreases n,
    {
        if n <= 0 {
            0
        } else {
            self.retained_by(n - 1) + self.saved@[n - 1].draft.editor.retained()
                + references::total_size(self.saved@[n - 1].draft.references@)
        }
    }

    /// The bytes that are retained beside the text in front: by its references, and by the drafts
    /// that are kept.
    pub open spec fn retained_beside(&self, front: Seq<ReferenceView>) -> int {
        references::total_size(front) + self.retained_by(self@.saved.len() as int)
    }

    proof fn lemma_retained(&self, n: int)
        requires
            self.wf(),
            n <= self@.saved.len(),
        ensures
            self.retained_by(n) >= Drafts::held_by(self@.saved, n) >= 0,
        decreases n,
    {
        if n > 0 {
            self.lemma_retained(n - 1);
            let s = self.saved@[n - 1];
            assert(self@.saved[n - 1] == s@);
            assert(s.draft.editor.wf());
            s.draft.editor.law_bounds();
            references::lemma_total_size(s.draft.references@);
        }
    }

    /// What is retained is at least what is held: a text has no less allocated than it fills, and as
    /// much more as the machine gave. Without other drafts, it is what the references take.
    pub proof fn law_retained(&self, front: Seq<ReferenceView>)
        requires
            self.wf(),
        ensures
            self.retained_beside(front) >= Drafts::held(self@, front) >= 0,
            self@.saved.len() == 0 ==> self.retained_beside(front) == references::total_size(front),
    {
        self.lemma_retained(self@.saved.len() as int);
        references::lemma_total_size(front);
    }

    /// The bytes that are retained beside the text in front.
    pub fn draft_reference_retention(&self, references: &References) -> (n: usize)
        requires
            self.wf(),
        ensures
            n == (if self.retained_beside(references@) <= usize::MAX {
                self.retained_beside(references@)
            } else {
                usize::MAX as int
            }),
    {
        let mut n: usize = references.bytes();
        let mut i: usize = 0;
        proof {
            references::lemma_total_size(references@);
        }
        while i < self.saved.len()
            invariant
                self.wf(),
                i <= self.saved@.len(),
                references::total_size(references@) >= 0,
                self.retained_by(i as int) >= 0,
                n == (if references::total_size(references@) + self.retained_by(i as int)
                    <= usize::MAX {
                    references::total_size(references@) + self.retained_by(i as int)
                } else {
                    usize::MAX as int
                }),
            decreases self.saved@.len() - i,
        {
            proof {
                assert(self.saved@[i as int].draft.editor.wf());
                references::lemma_total_size(self.saved@[i as int].draft.references@);
            }
            n = n.saturating_add(self.saved[i].draft.editor.retained_bytes()).saturating_add(
                self.saved[i].draft.references.bytes(),
            );
            i += 1;
        }
        n
    }

    /// Limits the text in front to what all drafts may retain together, less what is retained beside
    /// it.
    pub fn limit_front(&self, references: &References, e: &mut Editor)
        requires
            self.wf(),
            old(e).wf(),
        ensures
            final(e).wf(),
            final(e).within(),
            final(e)@ == (EditorView {
                retention: Drafts::room_beside(self.retained_beside(references@)),
                history: old(e)@.history.trimmed(
                    editor::left_of(final(e)@.retention, final(e).reserved()) as int,
                ),
                ..old(e)@
            }),
    {
        proof {
            self.law_retained(references@);
        }
        let retained: usize = self.draft_reference_retention(references);
        e.set_retention_limit(DRAFT_BYTES.saturating_sub(retained));
    }

    /// What the text in front may retain where so much is retained beside it.
    pub open spec fn room_beside(retained: int) -> nat {
        if retained >= DRAFT_BYTES {
            0
        } else if DRAFT_BYTES - retained <= MAX_RETAINED {
            (DRAFT_BYTES - retained) as nat
        } else {
            MAX_RETAINED as nat
        }
    }

    /// All drafts share one pool: an editor in front that is within its limit, and has no more
    /// allocated than that, retains no more with all that is beside it than the pool has.
    pub proof fn law_pool(&self, front: Seq<ReferenceView>, e: Editor)
        requires
            self.wf(),
            e.within(),
            e@.retention == Drafts::room_beside(self.retained_beside(front)),
            e.reserved() <= e@.retention,
            self.retained_beside(front) <= DRAFT_BYTES,
        ensures
            e.retained() + self.retained_beside(front) <= DRAFT_BYTES,
    {
    }

    /// Takes the draft of a conversation out of those that are kept.
    fn take_saved(&mut self, session: u64) -> (r: Option<Draft>)
        requires
            old(self).wf(),
        ensures
            final(self).wf(),
            final(self)@ == (DraftsView { saved: others(old(self)@.saved, session), ..old(self)@ }),
            match r {
                Some(d) => found(old(self)@.saved, session) == Some(d@) && d.editor.wf(),
                None => found(old(self)@.saved, session) is None,
            },
    {
        let ghost v = self@;
        let ghost items = self.saved@;
        let ghost all = saved_of(items);
        let mut source: Vec<Saved> = Vec::new();
        std::mem::swap(&mut source, &mut self.saved);
        let mut kept: Vec<Saved> = Vec::new();
        let mut out: Option<Draft> = None;
        let ghost mut n: int = 0;
        proof {
            assert(all.take(0) =~= Seq::<SavedView>::empty());
            assert(saved_of(kept@) =~= Seq::<SavedView>::empty());
            assert(items.skip(0) =~= items);
        }
        while source.len() > 0
            invariant
                0 <= n <= items.len(),
                source@ == items.skip(n),
                all == saved_of(items),
                forall|i: int| 0 <= i < items.len() ==> (#[trigger] items[i]).draft.editor.wf(),
                forall|i: int| 0 <= i < kept@.len() ==> (#[trigger] kept@[i]).draft.editor.wf(),
                saved_of(kept@) == others(all.take(n), session),
                match out {
                    Some(d) => found(all.take(n), session) == Some(d@) && d.editor.wf(),
                    None => found(all.take(n), session) is None,
                },
            decreases source@.len(),
        {
            let ghost before = saved_of(kept@);
            let first = source.remove(0);
            proof {
                assert(first == items[n]);
                assert(all.take(n + 1).last() == first@);
                assert(all.take(n + 1).drop_last() =~= all.take(n));
                assert(source@ =~= items.skip(n + 1));
            }
            if first.session == session {
                out = Some(first.draft);
            } else {
                let ghost seen = first@;
                kept.push(first);
                proof {
                    assert(saved_of(kept@) =~= before.push(seen));
                }
            }
            proof {
                n = n + 1;
            }
        }
        proof {
            assert(n == items.len());
            assert(all.take(n) =~= all);
        }
        self.saved = kept;
        proof {
            assert(self@ =~= DraftsView { saved: others(v.saved, session), ..v });
        }
        out
    }

    /// Puts another conversation in front: the draft of the one before is kept, and the draft that
    /// was kept of the other, if any, comes back.
    pub fn switch_session_draft(&mut self, session: u64, generation: u64, command: u64)
        requires
            old(self).wf(),
        ensures
            final(self).wf(),
            final(self)@ == switched(old(self)@, session, generation, command),
    {
        let ghost v = self@;
        let before: u64 = self.session;
        let _ = self.take_saved(before);
        let mut draft = blank_draft(command);
        std::mem::swap(&mut draft, &mut self.draft);
        let ghost kept = saved_of(self.saved@);
        let ghost d = draft@;
        self.saved.push(Saved { session: before, draft, last_used: generation });
        proof {
            assert(saved_of(self.saved@) =~= left(v, generation));
        }
        if let Some(saved) = self.take_saved(session) {
            self.draft = saved;
        }
        self.session = session;
        proof {
            assert(self@ =~= switched(v, session, generation, command));
        }
    }
}

proof fn lemma_found_others(v: Seq<SavedView>, a: u64, b: u64)
    requires
        a != b,
    ensures
        found(others(v, b), a) == found(v, a),
    decreases v.len(),
{
    if v.len() > 0 {
        lemma_found_others(v.drop_last(), a, b);
        let before = others(v.drop_last(), b);
        if v.last().session != b {
            assert(before.push(v.last()).drop_last() =~= before);
        }
    }
}

/// Going to another conversation and back brings the draft back as it was.
pub proof fn law_back_and_forth(v: DraftsView, other: u64, first: u64, second: u64, command: u64)
    requires
        other != v.session,
    ensures
        switched(switched(v, other, first, command), v.session, second, command).draft == v.draft,
        switched(switched(v, other, first, command), v.session, second, command).session
            == v.session,
{
    let w = switched(v, other, first, command);
    let all = left(v, first);
    assert(all.last().session == v.session);
    lemma_found_others(all, v.session, other);
    assert(found(w.saved, v.session) == Some(v.draft));
    lemma_found_others(w.saved, v.session, other);
    let back = left(w, second);
    assert(back.drop_last() =~= others(w.saved, w.session));
    assert(found(back, v.session) == found(others(w.saved, w.session), v.session));
}

/// No draft but that of the conversation that comes in front leaves those that are kept.
pub proof fn law_kept(v: DraftsView, session: u64, generation: u64, command: u64, other: u64)
    requires
        other != session,
        other != v.session,
    ensures
        found(switched(v, session, generation, command).saved, other) == found(v.saved, other),
{
    let all = left(v, generation);
    lemma_found_others(all, other, session);
    assert(all.drop_last() =~= others(v.saved, v.session));
    lemma_found_others(v.saved, other, v.session);
}

/// The pages that are read when a conversation comes in front: where the first ends, and where the
/// live one does, if it is another.
#[derive(Clone, Copy, Debug, PartialEq, Eq, Structural)]
pub struct FirstReads {
    /// Whether a page is read; it ends before the given fact, or is the last.
    pub page: bool,
    pub before: Option<u64>,
    pub live: bool,
    pub live_before: Option<u64>,
}

/// The number after, unless there is none.
pub open spec fn following(n: u64) -> Option<u64> {
    if n == u64::MAX {
        None
    } else {
        Some((n + 1) as u64)
    }
}

/// What is read when a conversation comes in front. `durable` is its last fact, where it is kept,
/// and `top` the fact at the top of what was shown.
pub fn first_reads(durable: Option<u64>, top: Option<u64>) -> (r: FirstReads)
    ensures
        match durable {
            None => r == (FirstReads { page: false, before: None, live: false, live_before: None }),
            Some(last) => {
                &&& r.page
                &&& r.before == following(
                    match top {
                        Some(seq) => seq,
                        None => last,
                    },
                )
                &&& r.live == (top matches Some(seq) && seq < last)
                &&& r.live_before == (if r.live {
                    following(last)
                } else {
                    None
                })
            },
        },
{
    match durable {
        None => FirstReads { page: false, before: None, live: false, live_before: None },
        Some(last) => {
            let seq: u64 = match top {
                Some(seq) => seq,
                None => last,
            };
            let live: bool = match top {
                Some(seq) => seq < last,
                None => false,
            };
            FirstReads {
                page: true,
                before: seq.checked_add(1),
                live,
                live_before: if live {
                    last.checked_add(1)
                } else {
                    None
                },
            }
        },
    }
}

/// The tries at something whose owner may be at its capacity.
pub const ATTEMPTS: u32 = 5;

/// The milliseconds before the second try.
pub const FIRST_DELAY: u64 = 50;

/// Trying again, after twice the time each.
#[derive(Clone, Copy, Debug, PartialEq, Eq, Structural)]
pub struct Attempts {
    /// The tries that were made.
    pub made: u32,
    /// The milliseconds before the next.
    pub delay: u64,
}

impl Attempts {
    /// The milliseconds before the try after `made`.
    pub open spec fn delay_after(made: nat) -> nat
        decreases made,
    {
        if made == 0 {
            FIRST_DELAY as nat
        } else {
            2 * Attempts::delay_after((made - 1) as nat)
        }
    }

    pub open spec fn valid(self) -> bool {
        self.made < ATTEMPTS && self.delay == Attempts::delay_after(self.made as nat)
    }

    pub fn new() -> (r: Attempts)
        ensures
            r.valid(),
            r.made == 0,
    {
        Attempts { made: 0, delay: FIRST_DELAY }
    }

    /// Takes in that a try found its owner at capacity. Says how many milliseconds to wait before
    /// the next, or that there is none.
    pub fn capacity(&mut self) -> (r: Option<u64>)
        requires
            old(self).valid(),
        ensures
            final(self).valid(),
            if old(self).made < ATTEMPTS - 1 {
                r == Some(old(self).delay) && final(self).made == old(self).made + 1
            } else {
                r is None && *final(self) == *old(self)
            },
    {
        if self.made < 4 {
            let delay: u64 = self.delay;
            proof {
                reveal_with_fuel(Attempts::delay_after, 6);
            }
            self.made += 1;
            self.delay = delay * 2;
            Some(delay)
        } else {
            None
        }
    }
}

/// Another conversation in front has the draft that was kept of it, or an empty one; its own is not
/// among those that are kept, and the one that was in front is.
pub proof fn law_switched(v: DraftsView, session: u64, generation: u64, command: u64)
    requires
        session != v.session,
    ensures
        ({
            let w = switched(v, session, generation, command);
            &&& w.session == session
            &&& found(v.saved, session) matches Some(d) ==> w.draft == d
            &&& found(v.saved, session) is None ==> w.draft == blank(command)
            &&& found(w.saved, session) is None
            &&& found(w.saved, v.session) == Some(v.draft)
        }),
        blank(command).editor.text.len() == 0,
        blank(command).references.len() == 0,
        blank(command).owned.len() == 0,
        blank(command).command == command,
{
    let all = left(v, generation);
    assert(all.last().session == v.session);
    assert(all.drop_last() =~= others(v.saved, v.session));
    lemma_found_others(v.saved, session, v.session);
    lemma_found_others(all, v.session, session);
    lemma_gone(all, session);
}

proof fn lemma_gone(v: Seq<SavedView>, session: u64)
    ensures
        found(others(v, session), session) is None,
    decreases v.len(),
{
    if v.len() > 0 {
        lemma_gone(v.drop_last(), session);
        let before = others(v.drop_last(), session);
        if v.last().session != session {
            assert(before.push(v.last()).drop_last() =~= before);
        }
    }
}

/// The draft that is found is the one of that conversation.
pub proof fn law_found(v: Seq<SavedView>, s: SavedView, session: u64)
    ensures
        s.session == session ==> found(v.push(s), session) == Some(s.draft),
        s.session != session ==> found(v.push(s), session) == found(v, session),
        found(seq![], session) is None,
{
    assert(v.push(s).drop_last() =~= v);
}

/// What the text in front may retain: what the others leave of 4 MiB, and at most 2 MiB.
pub proof fn law_room(retained: int)
    requires
        0 <= retained,
    ensures
        retained >= 4194304 ==> Drafts::room_beside(retained) == 0,
        retained < 4194304 ==> retained + Drafts::room_beside(retained) <= 4194304,
        Drafts::room_beside(retained) <= 2097152,
        retained <= 2097152 ==> Drafts::room_beside(retained) == 2097152,
        2097152 <= retained <= 4194304 ==> Drafts::room_beside(retained) == 4194304 - retained,
{
}

/// What drafts hold, and the inputs that came from them, are the sums over each.
pub proof fn law_held(v: Seq<SavedView>, n: int)
    requires
        0 <= n < v.len(),
    ensures
        Drafts::owned_by(v, n + 1) == Drafts::owned_by(v, n) + v[n].draft.owned.len(),
        Drafts::held_by(v, n + 1) == Drafts::held_by(v, n) + text::size(v[n].draft.editor.text)
            + v[n].draft.editor.history.bytes() + references::total_size(v[n].draft.references),
        Drafts::owned_by(v, 0) == 0,
        Drafts::held_by(v, 0) == 0,
{
}

/// Each try waits twice as long as the one before, from 50 milliseconds on, and there are five.
pub proof fn law_delays(made: nat, a: Attempts)
    ensures
        Attempts::delay_after(0) == 50,
        Attempts::delay_after(made + 1) == 2 * Attempts::delay_after(made),
        a.valid() ==> a.made < 5,
{
}

/// The number after is one more.
pub proof fn law_following(n: u64)
    ensures
        n < u64::MAX ==> following(n) == Some((n + 1) as u64),
        n == u64::MAX ==> following(n) is None,
{
}

/// The drafts of the other conversations are all that belong to none of this one, in their order.
pub proof fn law_others(v: Seq<SavedView>, s: SavedView, session: u64)
    ensures
        others(seq![], session).len() == 0,
        s.session == session ==> others(v.push(s), session) == others(v, session),
        s.session != session ==> others(v.push(s), session) == others(v, session).push(s),
{
    assert(v.push(s).drop_last() =~= v);
}

} // verus!
