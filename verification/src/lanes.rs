//! The requests of a client that are under way, and which of their results still count.
use vstd::prelude::*;
use crate::slash_ui;
use crate::slash_ui::bump;

verus! {

/// What a request is for.
#[derive(Clone, Copy, Debug, PartialEq, Eq, Structural)]
pub enum WorkKind {
    Read,
    Detail,
    Inspect,
    History,
    Submit,
    Cancel,
}

/// The requests that may be under way when another of a kind is made.
pub open spec fn lane_limit(kind: WorkKind) -> usize {
    match kind {
        WorkKind::Cancel => 12,
        WorkKind::Submit => 10,
        _ => 8,
    }
}

pub fn limit_of(kind: WorkKind) -> (n: usize)
    ensures
        n == lane_limit(kind),
{
    match kind {
        WorkKind::Cancel => 12,
        WorkKind::Submit => 10,
        _ => 8,
    }
}

/// What a result is tagged with.
#[derive(Clone, Copy, Debug, PartialEq, Eq, Structural)]
pub struct Tag {
    pub generation: u64,
    pub view_revision: u64,
    pub history_revision: u64,
    pub kind: WorkKind,
}

/// The pages of history that are read back.
#[derive(Clone, Copy, Debug, PartialEq, Eq, Structural)]
pub struct History {
    pub revision: u64,
    pub before: Option<u64>,
    pub loading: bool,
    pub pages: usize,
    pub bytes: usize,
    pub backfill: bool,
}

/// The pages that are read back by themselves.
pub const BACKFILL_PAGES: usize = 8;

/// The bytes that are read back by themselves.
pub const BACKFILL_BYTES: usize = 16777216;

/// The requests that are under way.
#[derive(Clone, Copy, Debug, PartialEq, Eq, Structural)]
pub struct Lanes {
    pub generation: u64,
    pub view_revision: u64,
    pub tasks: usize,
    pub history: History,
    /// Whether the shown text is apart from the live one.
    pub detached: bool,
    pub inspecting: bool,
    pub metrics_loading: bool,
    pub cancelling: bool,
    pub cancellation_queued: bool,
}

/// What a page of history holds, as far as reading back goes.
#[derive(Clone, Copy, Debug, PartialEq, Eq, Structural)]
pub struct PageSize {
    pub bytes: usize,
    pub has_more: bool,
    /// The number of the first fact, or else where the page ends.
    pub first: Option<u64>,
    pub before: u64,
    /// Whether a turn begins in it.
    pub boundary: bool,
}

/// A sum that stops at the largest number.
pub open spec fn capped(a: int) -> usize {
    if a > usize::MAX {
        usize::MAX
    } else {
        a as usize
    }
}

impl Lanes {
    /// Nothing is under way.
    pub open spec fn fresh(paged: bool) -> Lanes {
        Lanes {
            generation: 0,
            view_revision: 0,
            tasks: 0,
            history: History {
                revision: 0,
                before: None,
                loading: false,
                pages: 0,
                bytes: 0,
                backfill: paged,
            },
            detached: false,
            inspecting: false,
            metrics_loading: false,
            cancelling: false,
            cancellation_queued: false,
        }
    }

    pub fn new(paged: bool) -> (r: Lanes)
        ensures
            r == Lanes::fresh(paged),
    {
        Lanes {
            generation: 0,
            view_revision: 0,
            tasks: 0,
            history: History {
                revision: 0,
                before: None,
                loading: false,
                pages: 0,
                bytes: 0,
                backfill: paged,
            },
            detached: false,
            inspecting: false,
            metrics_loading: false,
            cancelling: false,
            cancellation_queued: false,
        }
    }

    /// Whether another request of a kind can be made.
    pub open spec fn admits(self, kind: WorkKind) -> bool {
        self.tasks < lane_limit(kind)
    }

    /// What a request of a kind is tagged with.
    pub open spec fn tag(self, kind: WorkKind) -> Tag {
        Tag {
            generation: self.generation,
            view_revision: self.view_revision,
            history_revision: self.history.revision,
            kind,
        }
    }

    /// Makes a request, unless too many are under way.
    pub fn spawn(&mut self, kind: WorkKind) -> (r: Option<Tag>)
        ensures
            if old(self).admits(kind) {
                r == Some(old(self).tag(kind)) && *final(self) == (Lanes {
                    tasks: (old(self).tasks + 1) as usize,
                    ..*old(self)
                })
            } else {
                r is None && *final(self) == *old(self)
            },
    {
        if self.tasks >= limit_of(kind) {
            return None;
        }
        self.tasks = self.tasks + 1;
        Some(
            Tag {
                generation: self.generation,
                view_revision: self.view_revision,
                history_revision: self.history.revision,
                kind,
            },
        )
    }

    /// Whether a result no longer counts: it belongs to another conversation, to another reading
    /// of history, or to another text that was shown.
    pub open spec fn supersedes(self, tag: Tag) -> bool {
        ||| tag.generation != self.generation
        ||| tag.kind is History && tag.history_revision != self.history.revision
        ||| tag.kind is Detail && tag.view_revision != self.view_revision
    }

    pub fn superseded(&self, tag: Tag) -> (r: bool)
        ensures
            r == self.supersedes(tag),
    {
        tag.generation != self.generation || (tag.kind == WorkKind::History
            && tag.history_revision != self.history.revision) || (tag.kind == WorkKind::Detail
            && tag.view_revision != self.view_revision)
    }

    /// The state once a result has come back.
    pub open spec fn finished(self, tag: Tag) -> Lanes {
        let v = Lanes {
            tasks: if self.tasks > 0 {
                (self.tasks - 1) as usize
            } else {
                0
            },
            ..self
        };
        if self.supersedes(tag) {
            v
        } else {
            match tag.kind {
                WorkKind::Inspect => Lanes { inspecting: false, ..v },
                WorkKind::History => Lanes {
                    history: History { loading: false, ..v.history },
                    ..v
                },
                WorkKind::Cancel => Lanes { cancelling: false, ..v },
                _ => v,
            }
        }
    }

    /// Takes in that a result has come back. Says whether it counts.
    pub fn finish(&mut self, tag: Tag) -> (counts: bool)
        ensures
            counts == !old(self).supersedes(tag),
            *final(self) == old(self).finished(tag),
    {
        self.tasks = self.tasks.saturating_sub(1);
        if self.superseded(tag) {
            return false;
        }
        match tag.kind {
            WorkKind::Inspect => {
                self.inspecting = false;
            },
            WorkKind::History => {
                self.history.loading = false;
            },
            WorkKind::Cancel => {
                self.cancelling = false;
            },
            _ => {},
        }
        true
    }

    /// Whether the conversation is looked at: not while that is under way, or too much is.
    pub fn inspect(&mut self) -> (r: Option<Tag>)
        ensures
            if old(self).inspecting || old(self).tasks >= 8 {
                r is None && *final(self) == *old(self)
            } else {
                r == Some(old(self).tag(WorkKind::Inspect)) && *final(self) == (Lanes {
                    inspecting: true,
                    tasks: (old(self).tasks + 1) as usize,
                    ..*old(self)
                })
            },
    {
        if self.inspecting || self.tasks >= 8 {
            return None;
        }
        self.inspecting = true;
        self.spawn(WorkKind::Inspect)
    }

    /// Whether the use of models is read: not while that is under way, or too much is.
    pub fn refresh_metrics(&mut self) -> (r: Option<Tag>)
        ensures
            if old(self).metrics_loading || old(self).tasks >= 8 {
                r is None && *final(self) == *old(self)
            } else {
                r == Some(old(self).tag(WorkKind::Read)) && *final(self) == (Lanes {
                    metrics_loading: true,
                    tasks: (old(self).tasks + 1) as usize,
                    ..*old(self)
                })
            },
    {
        if self.metrics_loading || self.tasks >= 8 {
            return None;
        }
        self.metrics_loading = true;
        self.spawn(WorkKind::Read)
    }

    /// Takes in that the use of models was read. Says whether the rest is to be read.
    pub fn metrics_read(&mut self, complete: Option<bool>) -> (again: bool)
        ensures
            *final(self) == (Lanes { metrics_loading: false, ..*old(self) }),
            again == (complete == Some(false)),
    {
        self.metrics_loading = false;
        match complete {
            Some(complete) => !complete,
            None => false,
        }
    }

    /// Where history is read before: by hand, before the first fact that is shown.
    pub open spec fn reading_before(self, manual: bool, oldest: Option<u64>) -> Option<u64> {
        if manual && (oldest matches Some(seq) && seq > 1) {
            oldest
        } else {
            self.history.before
        }
    }

    /// The state once history is asked for.
    pub open spec fn reading(self, manual: bool, oldest: Option<u64>) -> Lanes {
        if self.history.loading || self.tasks >= 8 {
            self
        } else {
            let before = self.reading_before(manual, oldest);
            let v = Lanes { history: History { before, ..self.history }, ..self };
            if before is None {
                Lanes { history: History { backfill: false, ..v.history }, ..v }
            } else if manual {
                Lanes {
                    detached: true,
                    tasks: (self.tasks + 1) as usize,
                    history: History {
                        pages: 0,
                        bytes: 0,
                        backfill: true,
                        loading: true,
                        ..v.history
                    },
                    ..v
                }
            } else {
                Lanes {
                    tasks: (self.tasks + 1) as usize,
                    history: History { loading: true, ..v.history },
                    ..v
                }
            }
        }
    }

    /// Asks for a page of history. `oldest` is the first fact that is shown. Says where the page
    /// ends; one that is asked for by hand is read apart from the live text.
    pub fn read_history(&mut self, manual: bool, oldest: Option<u64>) -> (r: Option<(Tag, u64)>)
        ensures
            *final(self) == old(self).reading(manual, oldest),
            match r {
                Some((tag, before)) => tag == old(self).tag(WorkKind::History) && old(
                    self,
                ).reading_before(manual, oldest) == Some(before) && !old(self).history.loading
                    && old(self).tasks < 8,
                None => old(self).history.loading || old(self).tasks >= 8 || old(
                    self,
                ).reading_before(manual, oldest) is None,
            },
    {
        if self.history.loading || self.tasks >= 8 {
            return None;
        }
        if manual {
            if let Some(seq) = oldest {
                if seq > 1 {
                    self.history.before = Some(seq);
                }
            }
        }
        let before: u64 = match self.history.before {
            Some(before) => before,
            None => {
                self.history.backfill = false;
                return None;
            },
        };
        if manual {
            self.detached = true;
            self.history.pages = 0;
            self.history.bytes = 0;
            self.history.backfill = true;
        }
        self.history.loading = true;
        match self.spawn(WorkKind::History) {
            Some(tag) => Some((tag, before)),
            None => None,
        }
    }

    /// The reading of history after a page: it goes on by itself until a turn begins, enough is
    /// read, or there is no more.
    pub open spec fn paged(h: History, p: PageSize) -> History {
        let pages = capped(h.pages + 1);
        let bytes = capped(h.bytes + p.bytes);
        History {
            loading: false,
            pages,
            bytes,
            before: if p.has_more {
                Some(
                    match p.first {
                        Some(seq) => seq,
                        None => p.before,
                    },
                )
            } else {
                None
            },
            backfill: h.backfill && !(p.boundary || pages >= BACKFILL_PAGES || bytes
                >= BACKFILL_BYTES || !p.has_more),
            ..h
        }
    }

    /// Takes in a page of history.
    pub fn page(&mut self, p: PageSize)
        ensures
            *final(self) == (Lanes { history: Lanes::paged(old(self).history, p), ..*old(self) }),
    {
        self.history.loading = false;
        self.history.pages = self.history.pages.saturating_add(1);
        self.history.bytes = self.history.bytes.saturating_add(p.bytes);
        self.history.before = if p.has_more {
            Some(
                match p.first {
                    Some(seq) => seq,
                    None => p.before,
                },
            )
        } else {
            None
        };
        if p.boundary || self.history.pages >= BACKFILL_PAGES || self.history.bytes
            >= BACKFILL_BYTES || !p.has_more {
            self.history.backfill = false;
        }
    }

    /// The state when a page of history could not be read.
    pub open spec fn failed(self) -> Lanes {
        Lanes { history: History { backfill: false, loading: false, ..self.history }, ..self }
    }

    /// Takes in that a page of history could not be read: reading back by itself ends.
    pub fn page_failed(&mut self)
        ensures
            *final(self) == old(self).failed(),
            *final(self) == (Lanes {
                history: History { backfill: false, loading: false, ..old(self).history },
                ..*old(self)
            }),
    {
        self.history.loading = false;
        self.history.backfill = false;
    }

    /// Whether history is read back by itself now: it is to be, and no page is under way.
    pub open spec fn goes_on(self) -> bool {
        self.history.backfill && !self.history.loading
    }

    pub fn reads_on(&self) -> (r: bool)
        ensures
            r == self.goes_on(),
    {
        self.history.backfill && !self.history.loading
    }

    /// Asks for the next page of history, if it is read back by itself now.
    pub fn read_on(&mut self) -> (r: Option<(Tag, u64)>)
        ensures
            *final(self) == (if old(self).goes_on() {
                old(self).reading(false, None)
            } else {
                *old(self)
            }),
            match r {
                Some((tag, before)) => tag == old(self).tag(WorkKind::History) && old(
                    self,
                ).history.before == Some(before) && old(self).goes_on() && old(self).tasks < 8,
                None => !old(self).goes_on() || old(self).tasks >= 8 || old(
                    self,
                ).history.before is None,
            },
    {
        if self.reads_on() {
            self.read_history(false, None)
        } else {
            None
        }
    }

    /// The state when the live text is followed again: pages that are under way no longer count.
    pub open spec fn following(self) -> Lanes {
        Lanes {
            detached: false,
            history: History {
                revision: slash_ui::bumped(self.history.revision),
                loading: false,
                backfill: false,
                before: None,
                ..self.history
            },
            ..self
        }
    }

    /// Follows the live text again. Says whether another text was shown.
    pub fn follow_live(&mut self) -> (switched: bool)
        ensures
            *final(self) == old(self).following(),
            switched == old(self).detached,
    {
        let switched: bool = self.detached;
        self.detached = false;
        self.history.revision = bump(self.history.revision);
        self.history.loading = false;
        self.history.backfill = false;
        self.history.before = None;
        switched
    }

    /// The state for another conversation.
    pub open spec fn attached(self, detached: bool) -> Lanes {
        Lanes {
            tasks: 0,
            generation: slash_ui::bumped(self.generation),
            cancelling: false,
            cancellation_queued: false,
            detached,
            inspecting: false,
            metrics_loading: false,
            history: History {
                before: None,
                loading: false,
                pages: 0,
                bytes: 0,
                backfill: true,
                ..self.history
            },
            ..self
        }
    }

    /// Goes over to another conversation. Nothing that is under way counts any longer.
    pub fn attach(&mut self, detached: bool)
        ensures
            *final(self) == old(self).attached(detached),
    {
        self.tasks = 0;
        self.generation = bump(self.generation);
        self.cancelling = false;
        self.cancellation_queued = false;
        self.detached = detached;
        self.inspecting = false;
        self.metrics_loading = false;
        self.history.before = None;
        self.history.loading = false;
        self.history.pages = 0;
        self.history.bytes = 0;
        self.history.backfill = true;
    }

    /// The state when another text is shown, or none.
    pub fn invalidate_view(&mut self)
        ensures
            *final(self) == (Lanes {
                view_revision: slash_ui::bumped(old(self).view_revision),
                ..*old(self)
            }),
    {
        self.view_revision = bump(self.view_revision);
    }
}

/// What was asked for before the conversation changed never counts afterwards.
pub proof fn law_attach_fences(v: Lanes, kind: WorkKind, detached: bool)
    ensures
        v.attached(detached).supersedes(v.tag(kind)),
{
}

/// A page of history that was asked for before the live text is followed again never counts
/// afterwards.
pub proof fn law_follow_fences(v: Lanes)
    ensures
        v.following().supersedes(v.tag(WorkKind::History)),
        !v.following().history.backfill,
{
}

/// Cancelling always finds a lane where submitting does, and submitting where reading does.
pub proof fn law_lanes_nested(v: Lanes, kind: WorkKind)
    ensures
        v.admits(kind) ==> v.admits(WorkKind::Cancel),
        v.admits(WorkKind::Read) ==> v.admits(WorkKind::Submit),
        v.admits(WorkKind::Submit) ==> v.admits(WorkKind::Cancel),
{
}

/// Reading back by itself ends after eight pages.
pub proof fn law_backfill_ends(h: History, p: PageSize)
    requires
        h.pages + 1 >= BACKFILL_PAGES,
    ensures
        !Lanes::paged(h, p).backfill,
{
}

/// After a page that could not be read, no page is read by itself, whatever comes back of what was
/// asked for, until one is asked for by hand.
pub proof fn law_failure_ends_backfill(v: Lanes, tag: Tag, p: PageSize)
    ensures
        !v.failed().goes_on(),
        !v.failed().finished(tag).goes_on(),
        !v.failed().reading(false, None).history.backfill,
        !Lanes::paged(v.failed().history, p).backfill,
{
}

/// Twelve requests may be under way when another cancels, ten when another submits, and eight when
/// another does anything else.
pub proof fn law_lane_numbers(v: Lanes, kind: WorkKind)
    ensures
        v.admits(WorkKind::Cancel) <==> v.tasks < 12,
        v.admits(WorkKind::Submit) <==> v.tasks < 10,
        !(kind is Cancel) && !(kind is Submit) ==> (v.admits(kind) <==> v.tasks < 8),
{
}

/// A result counts as long as nothing changed since it was asked for; one that belongs to another
/// conversation, a page of an earlier reading and a text that is no longer shown do not.
pub proof fn law_counts(v: Lanes, kind: WorkKind, tag: Tag)
    ensures
        !v.supersedes(v.tag(kind)),
        v.tag(kind).kind == kind,
        v.supersedes(tag) <==> tag.generation != v.generation || (tag.kind is History
            && tag.history_revision != v.history.revision) || (tag.kind is Detail
            && tag.view_revision != v.view_revision),
{
}

/// Every result frees the lane that it took, whether it counts or not, and one that counts ends
/// exactly what it was asked for.
pub proof fn law_finished(v: Lanes, tag: Tag)
    requires
        v.tasks > 0,
    ensures
        ({
            let w = v.finished(tag);
            let counts = !v.supersedes(tag);
            &&& w.tasks == v.tasks - 1
            &&& w.inspecting == (v.inspecting && !(counts && tag.kind is Inspect))
            &&& w.cancelling == (v.cancelling && !(counts && tag.kind is Cancel))
            &&& w.history.loading == (v.history.loading && !(counts && tag.kind is History))
            &&& w.generation == v.generation
            &&& w.view_revision == v.view_revision
            &&& w.detached == v.detached
            &&& w.metrics_loading == v.metrics_loading
            &&& w.cancellation_queued == v.cancellation_queued
            &&& w.history == (History { loading: w.history.loading, ..v.history })
        }),
{
}

/// One page of history is under way at a time. Asked for by hand it ends before the first fact
/// that is shown, is read apart from the live text, and starts the count of pages anew; read by
/// itself it goes on where the last page ended.
pub proof fn law_reading(v: Lanes, manual: bool, oldest: Option<u64>)
    ensures
        v.history.loading || v.tasks >= 8 ==> v.reading(manual, oldest) == v,
        v.reading_before(false, oldest) == v.history.before,
        (oldest is Some && oldest->0 > 1) ==> v.reading_before(true, oldest) == oldest,
        (oldest is None || oldest->0 <= 1) ==> v.reading_before(true, oldest) == v.history.before,
        !v.history.loading && v.tasks < 8 && v.reading_before(manual, oldest) is Some ==> {
            let w = v.reading(manual, oldest);
            &&& w.history.loading
            &&& w.tasks == v.tasks + 1
            &&& w.history.before == v.reading_before(manual, oldest)
            &&& manual ==> w.detached && w.history.backfill && w.history.pages == 0
                && w.history.bytes == 0
            &&& !manual ==> w.detached == v.detached && w.history.backfill == v.history.backfill
                && w.history.pages == v.history.pages && w.history.bytes == v.history.bytes
        },
        !v.history.loading && v.tasks < 8 && v.reading_before(manual, oldest) is None ==> {
            let w = v.reading(manual, oldest);
            &&& !w.history.loading && !w.history.backfill && w.tasks == v.tasks
            &&& w.detached == v.detached
        },
{
}

/// A page of history ends its reading, counts, and says where the next ends: before its first
/// fact, or else where it ended itself. Reading goes on by itself for fewer than eight pages and
/// 16 MiB, as long as there is more and no turn begins.
pub proof fn law_page(h: History, p: PageSize)
    requires
        h.pages < 1000,
        h.bytes + p.bytes <= usize::MAX,
    ensures
        ({
            let w = Lanes::paged(h, p);
            &&& !w.loading
            &&& w.revision == h.revision
            &&& w.pages == h.pages + 1
            &&& w.bytes == h.bytes + p.bytes
            &&& !p.has_more ==> w.before is None
            &&& p.has_more && p.first is Some ==> w.before == p.first
            &&& p.has_more && p.first is None ==> w.before == Some(p.before)
            &&& w.backfill <==> h.backfill && p.has_more && !p.boundary && h.pages + 1 < 8 && h.bytes
                + p.bytes < 16 * 1024 * 1024
        }),
{
}

/// Pages are read by themselves where that is to be and none is under way.
pub proof fn law_goes_on(v: Lanes)
    ensures
        v.goes_on() <==> v.history.backfill && !v.history.loading,
        v.failed().history.before == v.history.before,
        v.failed().tasks == v.tasks,
        !v.failed().history.loading,
{
}

/// Following the live text shows it, forgets where history was read, and keeps the lanes.
pub proof fn law_following(v: Lanes)
    ensures
        !v.following().detached,
        v.following().history.before is None,
        !v.following().history.loading,
        v.following().tasks == v.tasks,
        v.following().generation == v.generation,
        v.following().history.revision != v.history.revision,
{
}

/// Another conversation begins with free lanes, nothing under way, and history that is read back
/// from its end; a fresh client reads history back where it is paged.
pub proof fn law_attached(v: Lanes, detached: bool, paged: bool)
    ensures
        ({
            let w = v.attached(detached);
            &&& w.tasks == 0
            &&& w.generation != v.generation
            &&& w.detached == detached
            &&& !w.cancelling && !w.cancellation_queued && !w.inspecting && !w.metrics_loading
            &&& !w.history.loading && w.history.backfill && w.history.before is None
            &&& w.history.pages == 0 && w.history.bytes == 0
            &&& w.view_revision == v.view_revision
        }),
        Lanes::fresh(paged).tasks == 0,
        Lanes::fresh(paged).history.backfill == paged,
        !Lanes::fresh(paged).history.loading,
{
}

} // verus!
