//! A bounded undo and redo history of text edits.
use std::collections::VecDeque;
use vstd::prelude::*;
use vstd::string::*;
use crate::text;
use crate::text::byte_len;

verus! {

/// Edits that the journal keeps in both directions together.
pub const MAXIMUM_CHANGES: usize = 256;

/// Bytes of text that the journal keeps in both directions together.
pub const MAXIMUM_BYTES: usize = 1048576;

/// One edit: at the byte offset `start`, `removed` was replaced by `inserted`, and the cursor
/// moved from `before` to `after`.
#[derive(Debug)]
pub struct Change {
    pub start: usize,
    pub removed: String,
    pub inserted: String,
    pub before: usize,
    pub after: usize,
}

/// What a [`Change`] says.
#[verifier::ext_equal]
pub struct ChangeView {
    pub start: int,
    pub removed: Seq<char>,
    pub inserted: Seq<char>,
    pub before: int,
    pub after: int,
}

impl View for Change {
    type V = ChangeView;

    open spec fn view(&self) -> ChangeView {
        ChangeView {
            start: self.start as int,
            removed: self.removed@,
            inserted: self.inserted@,
            before: self.before as int,
            after: self.after as int,
        }
    }
}

impl Clone for Change {
    fn clone(&self) -> (r: Self)
        ensures
            r@ == self@,
    {
        Change {
            start: self.start,
            removed: self.removed.clone(),
            inserted: self.inserted.clone(),
            before: self.before,
            after: self.after,
        }
    }
}

/// What several changes say, in order.
pub open spec fn changes(s: Seq<Change>) -> Seq<ChangeView> {
    Seq::new(s.len(), |i: int| s[i]@)
}

/// Bytes of text that a change holds.
pub open spec fn cost(c: ChangeView) -> nat {
    text::size(c.removed) + text::size(c.inserted)
}

/// Bytes of text that several changes hold.
pub open spec fn cost_of(s: Seq<ChangeView>) -> nat
    decreases s.len(),
{
    if s.len() == 0 {
        0
    } else {
        cost(s[0]) + cost_of(s.drop_first())
    }
}

/// Both directions of a history. The latest change is the last of `undo`, and the next to be
/// done again is the last of `redo`.
#[verifier::ext_equal]
pub struct History {
    pub undo: Seq<ChangeView>,
    pub redo: Seq<ChangeView>,
}

impl History {
    pub open spec fn empty() -> History {
        History { undo: seq![], redo: seq![] }
    }

    /// Bytes that both directions hold.
    pub open spec fn bytes(self) -> nat {
        cost_of(self.undo) + cost_of(self.redo)
    }

    /// Whether the history holds more than `budget` bytes or than its own limits allow.
    pub open spec fn over(self, budget: int) -> bool {
        ||| self.undo.len() + self.redo.len() > MAXIMUM_CHANGES
        ||| self.bytes() > MAXIMUM_BYTES
        ||| self.bytes() > budget
    }

    /// The history without the changes farthest from the present that do not fit: first the
    /// oldest undo steps, then the farthest redo steps.
    pub open spec fn trimmed(self, budget: int) -> History
        decreases self.undo.len() + self.redo.len(),
    {
        if !self.over(budget) {
            self
        } else if self.undo.len() > 0 {
            History { undo: self.undo.drop_first(), redo: self.redo }.trimmed(budget)
        } else if self.redo.len() > 0 {
            History { undo: self.undo, redo: self.redo.drop_first() }.trimmed(budget)
        } else {
            self
        }
    }
}

pub proof fn lemma_cost_concat(a: Seq<ChangeView>, b: Seq<ChangeView>)
    ensures
        cost_of(a + b) == cost_of(a) + cost_of(b),
    decreases a.len(),
{
    if a.len() == 0 {
        assert(a + b =~= b);
    } else {
        assert((a + b).drop_first() =~= a.drop_first() + b);
        lemma_cost_concat(a.drop_first(), b);
    }
}

pub proof fn lemma_cost_push(a: Seq<ChangeView>, c: ChangeView)
    ensures
        cost_of(a.push(c)) == cost_of(a) + cost(c),
{
    let one = seq![c];
    assert(one.drop_first() =~= Seq::<ChangeView>::empty());
    assert(cost_of(one.drop_first()) == 0);
    assert(a.push(c) =~= a + one);
    lemma_cost_concat(a, one);
}

/// Trimming keeps the changes nearest to the present, in order, and brings the history within
/// its limits and the budget. A history that fits is not touched.
pub proof fn law_trim(h: History, budget: int)
    requires
        0 <= budget,
    ensures
        !h.trimmed(budget).over(budget),
        !h.over(budget) ==> h.trimmed(budget) == h,
        exists|i: int, j: int|
            0 <= i <= h.undo.len() && 0 <= j <= h.redo.len() && (j > 0 ==> i == h.undo.len())
                && h.trimmed(budget).undo == #[trigger] h.undo.skip(i) && h.trimmed(budget).redo
                == #[trigger] h.redo.skip(j),
    decreases h.undo.len() + h.redo.len(),
{
    let r = h.trimmed(budget);
    if !h.over(budget) {
        assert(h.undo.skip(0) =~= h.undo);
        assert(h.redo.skip(0) =~= h.redo);
        assert(r.undo == h.undo.skip(0) && r.redo == h.redo.skip(0));
    } else if h.undo.len() > 0 {
        let g = History { undo: h.undo.drop_first(), redo: h.redo };
        law_trim(g, budget);
        let (i, j) = choose|i: int, j: int|
            0 <= i <= g.undo.len() && 0 <= j <= g.redo.len() && (j > 0 ==> i == g.undo.len())
                && r.undo == #[trigger] g.undo.skip(i) && r.redo == #[trigger] g.redo.skip(j);
        assert(g.undo.skip(i) =~= h.undo.skip(i + 1));
        assert(r.undo == h.undo.skip(i + 1) && r.redo == h.redo.skip(j));
    } else if h.redo.len() > 0 {
        let g = History { undo: h.undo, redo: h.redo.drop_first() };
        law_trim(g, budget);
        let (i, j) = choose|i: int, j: int|
            0 <= i <= g.undo.len() && 0 <= j <= g.redo.len() && (j > 0 ==> i == g.undo.len())
                && r.undo == #[trigger] g.undo.skip(i) && r.redo == #[trigger] g.redo.skip(j);
        assert(g.redo.skip(j) =~= h.redo.skip(j + 1));
        assert(h.undo.skip(0) =~= h.undo);
        assert(r.undo == h.undo.skip(0) && r.redo == h.redo.skip(j + 1));
    } else {
        assert(cost_of(h.undo) == 0 && cost_of(h.redo) == 0);
    }
}

/// The undo and redo stacks and the bytes they hold.
#[derive(Debug)]
pub struct Journal {
    undo: VecDeque<Change>,
    redo: Vec<Change>,
    bytes: u128,
}

impl View for Journal {
    type V = History;

    closed spec fn view(&self) -> History {
        History { undo: changes(self.undo@), redo: changes(self.redo@) }
    }
}

fn change_bytes(c: &Change) -> (n: u128)
    ensures
        n == cost(c@),
        n <= 2 * usize::MAX,
{
    byte_len(c.removed.as_str()) as u128 + byte_len(c.inserted.as_str()) as u128
}

impl Journal {
    /// The byte count is that of the changes, and the journal is within its limits.
    pub closed spec fn wf(&self) -> bool {
        &&& self.bytes == self@.bytes()
        &&& !self@.over(MAXIMUM_BYTES as int)
    }

    closed spec fn counted(&self) -> bool {
        self.bytes == self@.bytes()
    }

    /// What a well-formed journal keeps.
    pub proof fn law_bounds(&self)
        requires
            self.wf(),
        ensures
            self@.undo.len() + self@.redo.len() <= MAXIMUM_CHANGES,
            self@.bytes() <= MAXIMUM_BYTES,
    {
    }

    pub fn new() -> (journal: Journal)
        ensures
            journal.wf(),
            journal@ == History::empty(),
    {
        let journal = Journal { undo: VecDeque::new(), redo: Vec::new(), bytes: 0 };
        proof {
            assert(journal@.undo =~= Seq::<ChangeView>::empty());
            assert(journal@.redo =~= Seq::<ChangeView>::empty());
        }
        journal
    }

    /// Steps that can be undone.
    pub fn undo_len(&self) -> (n: usize)
        ensures
            n == self@.undo.len(),
    {
        self.undo.len()
    }

    /// Steps that can be done again.
    pub fn redo_len(&self) -> (n: usize)
        ensures
            n == self@.redo.len(),
    {
        self.redo.len()
    }

    /// Bytes of text that the journal holds.
    pub fn bytes(&self) -> (n: usize)
        requires
            self.wf(),
        ensures
            n == self@.bytes(),
            n <= MAXIMUM_BYTES,
    {
        self.bytes as usize
    }

    /// Forgets every change.
    pub fn clear(&mut self)
        ensures
            final(self).wf(),
            final(self)@ == History::empty(),
    {
        *self = Journal::new();
    }

    /// Drops the changes farthest from the present until the rest fits.
    pub fn trim(&mut self, budget: usize)
        requires
            old(self).wf(),
        ensures
            final(self).wf(),
            final(self)@ == old(self)@.trimmed(budget as int),
    {
        self.trim_counted(budget);
    }

    fn trim_counted(&mut self, budget: usize)
        requires
            old(self).counted(),
        ensures
            final(self).wf(),
            final(self)@ == old(self)@.trimmed(budget as int),
    {
        while self.undo.len() > MAXIMUM_CHANGES || self.redo.len() > MAXIMUM_CHANGES
            - self.undo.len() || self.bytes > MAXIMUM_BYTES as u128 || self.bytes > budget as u128
            invariant
                self.counted(),
                self@.trimmed(budget as int) == old(self)@.trimmed(budget as int),
            decreases self.undo@.len() + self.redo@.len(),
        {
            let ghost h = self@;
            if self.undo.len() > 0 {
                let ghost whole = self.undo@;
                if let Some(dropped) = self.undo.pop_front() {
                    proof {
                        assert(changes(whole)[0] == dropped@);
                        assert(changes(self.undo@) =~= changes(whole).drop_first());
                    }
                    self.bytes = self.bytes - change_bytes(&dropped);
                    proof {
                        assert(self@ =~= History { undo: h.undo.drop_first(), redo: h.redo });
                    }
                }
            } else {
                proof {
                    assert(cost_of(h.undo) == 0);
                    if self.redo@.len() == 0 {
                        assert(cost_of(h.redo) == 0);
                    }
                }
                let ghost whole = self.redo@;
                let dropped = self.redo.remove(0);
                proof {
                    assert(changes(whole)[0] == dropped@);
                    assert(changes(self.redo@) =~= changes(whole).drop_first());
                }
                self.bytes = self.bytes - change_bytes(&dropped);
                proof {
                    assert(self@ =~= History { undo: h.undo, redo: h.redo.drop_first() });
                }
            }
        }
    }

    /// Takes back the latest change.
    pub fn pop_undo(&mut self) -> (r: Option<Change>)
        requires
            old(self).wf(),
        ensures
            final(self).wf(),
            match r {
                Some(c) => old(self)@.undo.len() > 0 && c@ == old(self)@.undo.last()
                    && final(self)@ == (History {
                    undo: old(self)@.undo.drop_last(),
                    redo: old(self)@.redo,
                }),
                None => old(self)@.undo.len() == 0 && final(self)@ == old(self)@,
            },
    {
        let ghost h = self@;
        let r = self.undo.pop_back();
        match &r {
            Some(c) => {
                proof {
                    assert(h.undo =~= h.undo.drop_last().push(c@));
                    lemma_cost_push(h.undo.drop_last(), c@);
                    assert(changes(self.undo@) =~= h.undo.drop_last());
                }
                self.bytes = self.bytes - change_bytes(c);
            },
            None => {},
        }
        r
    }

    /// Takes the change that would be done again next.
    pub fn pop_redo(&mut self) -> (r: Option<Change>)
        requires
            old(self).wf(),
        ensures
            final(self).wf(),
            match r {
                Some(c) => old(self)@.redo.len() > 0 && c@ == old(self)@.redo.last()
                    && final(self)@ == (History {
                    undo: old(self)@.undo,
                    redo: old(self)@.redo.drop_last(),
                }),
                None => old(self)@.redo.len() == 0 && final(self)@ == old(self)@,
            },
    {
        let ghost h = self@;
        let r = self.redo.pop();
        match &r {
            Some(c) => {
                proof {
                    assert(h.redo =~= h.redo.drop_last().push(c@));
                    lemma_cost_push(h.redo.drop_last(), c@);
                    assert(changes(self.redo@) =~= h.redo.drop_last());
                }
                self.bytes = self.bytes - change_bytes(c);
            },
            None => {},
        }
        r
    }

    /// Puts a change that was done again back on the undo side.
    pub fn push_undo(&mut self, change: Change, budget: usize)
        requires
            old(self).wf(),
        ensures
            final(self).wf(),
            final(self)@ == (History {
                undo: old(self)@.undo.push(change@),
                redo: old(self)@.redo,
            }).trimmed(budget as int),
    {
        let ghost h = self@;
        proof {
            lemma_cost_push(h.undo, change@);
        }
        self.bytes = self.bytes + change_bytes(&change);
        let ghost view = change@;
        self.undo.push_back(change);
        proof {
            assert(changes(self.undo@) =~= h.undo.push(view));
        }
        self.trim_counted(budget);
    }

    /// Puts a change that was undone on the redo side.
    pub fn push_redo(&mut self, change: Change, budget: usize)
        requires
            old(self).wf(),
        ensures
            final(self).wf(),
            final(self)@ == (History {
                undo: old(self)@.undo,
                redo: old(self)@.redo.push(change@),
            }).trimmed(budget as int),
    {
        let ghost h = self@;
        proof {
            lemma_cost_push(h.redo, change@);
        }
        self.bytes = self.bytes + change_bytes(&change);
        let ghost view = change@;
        self.redo.push(change);
        proof {
            assert(changes(self.redo@) =~= h.redo.push(view));
        }
        self.trim_counted(budget);
    }

    /// Records a new change: what could be done again before is gone.
    pub fn record(&mut self, change: Change, budget: usize)
        requires
            old(self).wf(),
        ensures
            final(self).wf(),
            final(self)@ == (History {
                undo: old(self)@.undo.push(change@),
                redo: seq![],
            }).trimmed(budget as int),
    {
        let ghost h = self@;
        let mut i: usize = 0;
        let mut freed: u128 = 0;
        proof {
            assert(h.redo.skip(0) =~= h.redo);
        }
        while i < self.redo.len()
            invariant
                self@ == h,
                self.wf(),
                i <= self.redo@.len(),
                freed + cost_of(h.redo.skip(i as int)) == cost_of(h.redo),
            decreases self.redo@.len() - i,
        {
            proof {
                assert(h.redo.skip(i as int).drop_first() =~= h.redo.skip(i as int + 1));
            }
            freed = freed + change_bytes(&self.redo[i]);
            i += 1;
        }
        proof {
            assert(h.redo.skip(h.redo.len() as int) =~= Seq::<ChangeView>::empty());
        }
        self.bytes = self.bytes - freed;
        self.redo = Vec::new();
        proof {
            assert(changes(self.redo@) =~= Seq::<ChangeView>::empty());
            assert(self@ =~= History { undo: h.undo, redo: seq![] });
        }
        self.push_undo(change, budget);
    }
}

impl Clone for Journal {
    fn clone(&self) -> (r: Self)
        ensures
            r@ == self@,
            self.wf() ==> r.wf(),
    {
        let mut undo: VecDeque<Change> = VecDeque::new();
        let mut i: usize = 0;
        while i < self.undo.len()
            invariant
                i <= self.undo@.len(),
                changes(undo@) == changes(self.undo@).take(i as int),
            decreases self.undo@.len() - i,
        {
            let ghost before = changes(undo@);
            let c = self.undo[i].clone();
            let ghost view = c@;
            undo.push_back(c);
            i += 1;
            proof {
                assert(changes(undo@) =~= before.push(view));
                assert(changes(self.undo@).take(i as int) =~= before.push(view));
            }
        }
        let mut redo: Vec<Change> = Vec::new();
        let mut j: usize = 0;
        while j < self.redo.len()
            invariant
                j <= self.redo@.len(),
                changes(redo@) == changes(self.redo@).take(j as int),
            decreases self.redo@.len() - j,
        {
            let ghost before = changes(redo@);
            let c = self.redo[j].clone();
            let ghost view = c@;
            redo.push(c);
            j += 1;
            proof {
                assert(changes(redo@) =~= before.push(view));
                assert(changes(self.redo@).take(j as int) =~= before.push(view));
            }
        }
        let r = Journal { undo, redo, bytes: self.bytes };
        proof {
            assert(r@ =~= self@);
        }
        r
    }
}

/// A history holds 256 changes and 1 MiB at most, and no more than it was given; within that nothing
/// of it is forgotten.
pub proof fn law_history_limits(h: History, budget: int)
    requires
        0 <= budget,
    ensures
        ({
            let r = h.trimmed(budget);
            &&& r.undo.len() + r.redo.len() <= 256
            &&& r.bytes() <= 1048576
            &&& r.bytes() <= budget
        }),
        h.undo.len() + h.redo.len() <= 256 && h.bytes() <= 1048576 && h.bytes() <= budget ==> h.trimmed(
            budget,
        ) == h,
    decreases h.undo.len() + h.redo.len(),
{
    if h.over(budget) {
        if h.undo.len() > 0 {
            law_history_limits(History { undo: h.undo.drop_first(), redo: h.redo }, budget);
        } else if h.redo.len() > 0 {
            law_history_limits(History { undo: h.undo, redo: h.redo.drop_first() }, budget);
        } else {
            assert(h.bytes() == 0);
        }
    }
}

/// A change holds the bytes of what it removed and of what it inserted, and changes hold the sum.
pub proof fn law_cost(c: ChangeView, s: Seq<ChangeView>)
    ensures
        cost(c) == text::size(c.removed) + text::size(c.inserted),
        cost_of(seq![c] + s) == cost(c) + cost_of(s),
        cost_of(seq![]) == 0,
        History::empty().bytes() == 0,
{
    assert((seq![c] + s).drop_first() =~= s);
    assert((seq![c] + s)[0] == c);
}

} // verus!
