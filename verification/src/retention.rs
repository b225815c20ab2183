//! How many folds are remembered, over all conversations together.
//!
//! How many bytes a list has reserved is up to the allocator, so that it comes in as a number.
use vstd::prelude::*;
use vstd::string::*;
use crate::text;
use crate::text::is_before;

verus! {

/// The folds that may be remembered.
pub const MAXIMUM_FOLDS: usize = 4096;

/// The bytes that they may retain.
pub const MAXIMUM_BYTES: usize = 1048576;

/// Whether more is remembered than may be.
pub open spec fn over(count: int, retained: int) -> bool {
    count > MAXIMUM_FOLDS || retained > MAXIMUM_BYTES
}

pub fn is_over(count: usize, retained: usize) -> (r: bool)
    ensures
        r == over(count as int, retained as int),
{
    count > MAXIMUM_FOLDS || retained > MAXIMUM_BYTES
}

/// The bytes that the first `n` folds of a list retain, each with its slot.
pub open spec fn weight(v: Seq<usize>, n: int) -> int
    decreases n,
{
    if n <= 0 {
        0
    } else {
        weight(v, n - 1) + v[n - 1]
    }
}

/// The folds that a list gives up from its start, once it has given up the first `n`.
pub open spec fn given_from(v: Seq<usize>, count: int, retained: int, n: int) -> int
    decreases v.len() - n,
{
    if 0 <= n < v.len() && over(count - n, retained - weight(v, n)) {
        given_from(v, count, retained, n + 1)
    } else {
        n
    }
}

/// The folds that a list gives up from its start.
pub open spec fn given(v: Seq<usize>, count: int, retained: int) -> int {
    given_from(v, count, retained, 0)
}

/// Whether some folds are as few as bring all lists within the bounds, or all of the list.
pub open spec fn dropped(v: Seq<usize>, count: int, retained: int, n: int) -> bool {
    &&& 0 <= n <= v.len()
    &&& n == v.len() || !over(count - n, retained - weight(v, n))
    &&& forall|k: int|
        0 <= k < n ==> #[trigger] over(count - k, retained - weight(v, k))
}

proof fn lemma_weight_grows(v: Seq<usize>, i: int, j: int)
    requires
        0 <= i <= j <= v.len(),
    ensures
        weight(v, i) <= weight(v, j),
    decreases j - i,
{
    if i < j {
        lemma_weight_grows(v, i, j - 1);
    }
}

/// How many folds of a list are dropped. `weights` are the bytes that each fold retains with its
/// slot; `count` and `retained` are those of all lists, without the slots of this list that are
/// reserved and not used.
pub fn trim(weights: &Vec<usize>, count: usize, retained: usize) -> (r: (usize, usize, usize))
    requires
        weights@.len() <= count,
        weight(weights@, weights@.len() as int) <= retained,
    ensures
        r.0 == given(weights@, count as int, retained as int),
        r.0 <= weights@.len(),
        r.1 == count - r.0,
        r.2 == retained - weight(weights@, r.0 as int),
{
    let mut n: usize = 0;
    let mut c: usize = count;
    let mut b: usize = retained;
    while n < weights.len() && is_over(c, b)
        invariant
            n <= weights@.len(),
            weights@.len() <= count,
            weight(weights@, weights@.len() as int) <= retained,
            c == count - n,
            b == retained - weight(weights@, n as int),
            given(weights@, count as int, retained as int) == given_from(
                weights@,
                count as int,
                retained as int,
                n as int,
            ),
        decreases weights@.len() - n,
    {
        proof {
            lemma_weight_grows(weights@, n as int + 1, weights@.len() as int);
        }
        b = b - weights[n];
        c = c - 1;
        n += 1;
    }
    (n, c, b)
}

/// What all lists of folds hold while they are brought within the bounds, one after the other.
#[derive(Clone, Copy, Debug, PartialEq, Eq, Structural)]
pub struct FoldBudget {
    pub count: usize,
    pub retained: usize,
}

impl FoldBudget {
    /// Whether another list has to give up folds.
    pub open spec fn needs_more(self) -> bool {
        over(self.count as int, self.retained as int)
    }

    pub fn is_over(&self) -> (r: bool)
        ensures
            r == self.needs_more(),
    {
        is_over(self.count, self.retained)
    }

    /// Says how many folds a list gives up from its start. `unused` are the bytes that its slots
    /// without a fold reserve; the list gives them back in any case.
    pub fn drop_from(&mut self, weights: &Vec<usize>, unused: usize) -> (n: usize)
        requires
            weights@.len() <= old(self).count,
            unused + weight(weights@, weights@.len() as int) <= old(self).retained,
        ensures
            n == given(weights@, old(self).count as int, old(self).retained - unused),
            n <= weights@.len(),
            final(self).count == old(self).count - n,
            final(self).retained == old(self).retained - unused - weight(weights@, n as int),
            !final(self).needs_more() || n == weights@.len(),
    {
        proof {
            lemma_weight_grows(weights@, 0, weights@.len() as int);
            law_given_is_least(weights@, self.count as int, self.retained - unused);
        }
        let (n, count, retained) = trim(weights, self.count, self.retained - unused);
        self.count = count;
        self.retained = retained;
        n
    }

    /// Takes in the bytes that the slots of a list without a fold still reserve.
    pub fn shrunk(&mut self, unused: usize)
        requires
            old(self).retained + unused <= usize::MAX,
        ensures
            final(self).count == old(self).count,
            final(self).retained == old(self).retained + unused,
    {
        self.retained = self.retained + unused;
    }
}

/// A list gives up as few folds as bring all lists within the bounds, or all that it has.
pub proof fn law_given_is_least(v: Seq<usize>, count: int, retained: int)
    ensures
        dropped(v, count, retained, given(v, count, retained)),
{
    lemma_given_from(v, count, retained, 0);
}

proof fn lemma_given_from(v: Seq<usize>, count: int, retained: int, n: int)
    requires
        0 <= n <= v.len(),
        forall|k: int| 0 <= k < n ==> #[trigger] over(count - k, retained - weight(v, k)),
    ensures
        dropped(v, count, retained, given_from(v, count, retained, n)),
    decreases v.len() - n,
{
    if n < v.len() && over(count - n, retained - weight(v, n)) {
        lemma_given_from(v, count, retained, n + 1);
    }
}

/// A list within the bounds gives up nothing, and one that gives up folds gives up no more than it
/// takes: with one fold less given up, too much would be held.
pub proof fn law_no_more_than_needed(v: Seq<usize>, count: int, retained: int, n: int)
    requires
        dropped(v, count, retained, n),
    ensures
        !over(count, retained) ==> n == 0,
        n > 0 ==> over(count - (n - 1), retained - weight(v, n - 1)),
{
    if n > 0 {
        assert(over(count - (n - 1), retained - weight(v, n - 1)));
        assert(over(count - 0, retained - weight(v, 0)));
    }
}

/// What is known of the list of folds of a conversation.
#[derive(Debug)]
pub struct FoldList {
    /// The conversation, and when it was last used.
    pub name: String,
    pub used: u64,
    /// The bytes that each fold retains with its slot.
    pub weights: Vec<usize>,
    /// The bytes of the list itself.
    pub fixed: usize,
    /// The bytes that its slots without a fold reserve.
    pub unused: usize,
}

impl FoldList {
    /// All bytes of the list.
    pub open spec fn bytes(self) -> int {
        self.fixed + self.unused + weight(self.weights@, self.weights@.len() as int)
    }
}

/// The sum of some numbers.
pub open spec fn total(v: Seq<int>) -> int
    decreases v.len(),
{
    if v.len() == 0 {
        0
    } else {
        total(v.drop_last()) + v.last()
    }
}

/// Numbers in another order.
pub open spec fn picked(v: Seq<int>, order: Seq<usize>) -> Seq<int> {
    Seq::new(order.len(), |i: int| v[order[i] as int])
}

/// How many folds each list holds.
pub open spec fn counts(v: Seq<FoldList>) -> Seq<int> {
    Seq::new(v.len(), |i: int| v[i].weights@.len() as int)
}

/// How many bytes each list holds.
pub open spec fn sizes(v: Seq<FoldList>) -> Seq<int> {
    Seq::new(v.len(), |i: int| v[i].bytes())
}

/// Some numbers as integers.
pub open spec fn numbers(v: Seq<usize>) -> Seq<int> {
    Seq::new(v.len(), |i: int| v[i] as int)
}

proof fn lemma_total_insert(v: Seq<int>, order: Seq<usize>, at: int, x: usize)
    requires
        0 <= at <= order.len(),
    ensures
        total(picked(v, order.insert(at, x))) == total(picked(v, order)) + v[x as int],
    decreases order.len(),
{
    let more = picked(v, order.insert(at, x));
    if at == order.len() {
        assert(more.drop_last() =~= picked(v, order));
    } else {
        lemma_total_insert(v, order.drop_last(), at, x);
        assert(more.drop_last() =~= picked(v, order.drop_last().insert(at, x)));
        assert(picked(v, order).drop_last() =~= picked(v, order.drop_last()));
    }
}

proof fn lemma_total_grows(v: Seq<int>, i: int, j: int)
    requires
        0 <= i <= j <= v.len(),
        forall|k: int| 0 <= k < v.len() ==> #[trigger] v[k] >= 0,
    ensures
        0 <= total(v.take(i)) <= total(v.take(j)),
    decreases j,
{
    if j > 0 {
        assert(v.take(j).drop_last() =~= v.take(j - 1));
        if i < j {
            lemma_total_grows(v, i, j - 1);
        } else {
            lemma_total_grows(v, j - 1, j - 1);
        }
    }
}

/// The folds that all lists hold, and the bytes that they retain.
pub fn fold_retention(saved: &Vec<FoldList>, front: &FoldList) -> (r: FoldBudget)
    requires
        total(counts(saved@)) + front.weights@.len() <= usize::MAX,
        total(sizes(saved@)) + front.bytes() <= usize::MAX,
    ensures
        r.count == total(counts(saved@)) + front.weights@.len(),
        r.retained == total(sizes(saved@)) + front.bytes(),
{
    let ghost c = counts(saved@);
    let ghost b = sizes(saved@);
    proof {
        lemma_all_nonnegative(saved@);
        lemma_weight_grows(front.weights@, 0, front.weights@.len() as int);
        lemma_total_grows(b, 0, b.len() as int);
        assert(c.take(c.len() as int) =~= c);
        assert(b.take(b.len() as int) =~= b);
    }
    let mut count: usize = front.weights.len();
    let mut retained: usize = list_bytes(front);
    let mut i: usize = 0;
    while i < saved.len()
        invariant
            i <= saved@.len(),
            c == counts(saved@),
            b == sizes(saved@),
            forall|k: int| 0 <= k < c.len() ==> #[trigger] c[k] >= 0,
            forall|k: int| 0 <= k < b.len() ==> #[trigger] b[k] >= 0,
            total(c) + front.weights@.len() <= usize::MAX,
            total(b) + front.bytes() <= usize::MAX,
            front.bytes() >= 0,
            count == total(c.take(i as int)) + front.weights@.len(),
            retained == total(b.take(i as int)) + front.bytes(),
        decreases saved@.len() - i,
    {
        proof {
            assert(c.take(i as int + 1).drop_last() =~= c.take(i as int));
            assert(b.take(i as int + 1).drop_last() =~= b.take(i as int));
            assert(c.take(i as int + 1).last() == c[i as int]);
            assert(b.take(i as int + 1).last() == b[i as int]);
            lemma_total_grows(c, i as int + 1, c.len() as int);
            lemma_total_grows(b, i as int + 1, b.len() as int);
            lemma_total_grows(b, 0, i as int);
            assert(c.take(c.len() as int) =~= c);
            assert(b.take(b.len() as int) =~= b);
        }
        count = count + saved[i].weights.len();
        retained = retained + list_bytes(&saved[i]);
        i += 1;
    }
    proof {
        assert(c.take(i as int) =~= c);
        assert(b.take(i as int) =~= b);
    }
    FoldBudget { count, retained }
}

proof fn lemma_all_nonnegative(v: Seq<FoldList>)
    ensures
        forall|k: int| 0 <= k < v.len() ==> #[trigger] counts(v)[k] >= 0,
        forall|k: int| 0 <= k < v.len() ==> #[trigger] sizes(v)[k] >= 0,
{
    assert forall|k: int| 0 <= k < v.len() implies #[trigger] sizes(v)[k] >= 0 by {
        lemma_weight_grows(v[k].weights@, 0, v[k].weights@.len() as int);
    }
}

fn list_bytes(list: &FoldList) -> (r: usize)
    requires
        list.bytes() <= usize::MAX,
    ensures
        r == list.bytes(),
{
    let mut sum: usize = 0;
    let mut i: usize = 0;
    while i < list.weights.len()
        invariant
            i <= list.weights@.len(),
            sum == weight(list.weights@, i as int),
            list.bytes() <= usize::MAX,
        decreases list.weights@.len() - i,
    {
        proof {
            lemma_weight_grows(list.weights@, i as int + 1, list.weights@.len() as int);
        }
        sum = sum + list.weights[i];
        i += 1;
    }
    list.fixed + list.unused + sum
}

/// Whether the folds of a conversation are dropped before those of another: the one that was used
/// less recently comes first, and of those used at the same time the one whose name comes first.
pub open spec fn older(a: FoldList, b: FoldList) -> bool {
    a.used < b.used || (a.used == b.used && text::before(a.name@, b.name@))
}

fn is_older(a: &FoldList, b: &FoldList) -> (r: bool)
    ensures
        r == older(*a, *b),
{
    a.used < b.used || (a.used == b.used && is_before(a.name.as_str(), b.name.as_str()))
}

proof fn lemma_older(a: FoldList, b: FoldList, c: FoldList)
    ensures
        older(a, b) && !older(c, b) ==> older(a, c),
{
    text::lemma_before(a.name@, b.name@);
    text::lemma_before(b.name@, c.name@);
    if a.used == b.used && b.used == c.used && text::before(a.name@, b.name@) && b.name@ != c.name@
        && !text::before(c.name@, b.name@) {
        text::lemma_before_chain(a.name@, b.name@, c.name@);
    }
}

/// The saved conversations in the order in which their folds are dropped.
pub open spec fn in_order(saved: Seq<FoldList>, order: Seq<usize>) -> bool {
    &&& order.len() == saved.len()
    &&& forall|i: int| 0 <= i < order.len() ==> (#[trigger] order[i]) < saved.len()
    &&& forall|x: usize| x < saved.len() ==> #[trigger] order.contains(x)
    &&& forall|i: int, j: int|
        0 <= i < j < order.len() ==> (#[trigger] order[i]) != (#[trigger] order[j]) && !older(
            saved[order[j] as int],
            saved[order[i] as int],
        )
}

/// Puts saved conversations in that order.
pub fn oldest_first(saved: &Vec<FoldList>) -> (order: Vec<usize>)
    ensures
        in_order(saved@, order@),
        forall|v: Seq<int>|
            v.len() == saved@.len() ==> #[trigger] total(picked(v, order@)) == total(v),
{
    let mut order: Vec<usize> = Vec::new();
    let mut i: usize = 0;
    proof {
        assert forall|v: Seq<int>| #[trigger] total(picked(v, order@)) == total(v.take(0)) by {
            assert(picked(v, order@) =~= v.take(0));
        }
    }
    while i < saved.len()
        invariant
            i <= saved@.len(),
            order@.len() == i,
            forall|k: int| 0 <= k < order@.len() ==> (#[trigger] order@[k]) < i,
            forall|x: usize| x < i ==> #[trigger] order@.contains(x),
            forall|k: int, j: int|
                0 <= k < j < order@.len() ==> (#[trigger] order@[k]) != (#[trigger] order@[j])
                    && !older(saved@[order@[j] as int], saved@[order@[k] as int]),
            forall|v: Seq<int>|
                v.len() == saved@.len() ==> #[trigger] total(picked(v, order@)) == total(
                    v.take(i as int),
                ),
        decreases saved@.len() - i,
    {
        let mut at: usize = i;
        while at > 0 && is_older(&saved[i], &saved[order[at - 1]])
            invariant
                at <= i,
                i < saved@.len(),
                order@.len() == i,
                forall|k: int| 0 <= k < order@.len() ==> (#[trigger] order@[k]) < i,
                forall|k: int|
                    at <= k < i ==> older(saved@[i as int], saved@[(#[trigger] order@[k]) as int]),
            decreases at,
        {
            at -= 1;
        }
        let ghost before = order@;
        order.insert(at, i);
        proof {
            assert(order@ =~= before.insert(at as int, i));
            assert forall|x: usize| x < i + 1 implies #[trigger] order@.contains(x) by {
                if x == i {
                    assert(order@[at as int] == x);
                } else {
                    assert(before.contains(x));
                    let k = before.index_of(x);
                    if k < at {
                        assert(order@[k] == x);
                    } else {
                        assert(order@[k + 1] == x);
                    }
                }
            }
            assert forall|k: int| 0 <= k < order@.len() implies (#[trigger] order@[k]) < i + 1 by {
                if k < at {
                    assert(order@[k] == before[k]);
                } else if k > at {
                    assert(order@[k] == before[k - 1]);
                }
            }
            assert forall|k: int, j: int| 0 <= k < j < order@.len() implies (#[trigger] order@[k])
                != (#[trigger] order@[j]) && !older(
                saved@[order@[j] as int],
                saved@[order@[k] as int],
            ) by {
                let new = saved@[i as int];
                if j < at {
                    assert(order@[k] == before[k] && order@[j] == before[j]);
                } else if k > at {
                    assert(order@[k] == before[k - 1] && order@[j] == before[j - 1]);
                } else if k < at && j > at {
                    assert(order@[k] == before[k] && order@[j] == before[j - 1]);
                } else if j == at {
                    assert(order@[k] == before[k]);
                    let last = saved@[before[at - 1] as int];
                    let first = saved@[before[k] as int];
                    if k < at - 1 {
                        assert(!older(last, first));
                    }
                    lemma_older(new, first, last);
                } else {
                    assert(order@[j] == before[j - 1]);
                    let next = saved@[before[j - 1] as int];
                    assert(older(new, next));
                    text::lemma_before(new.name@, next.name@);
                }
            }
            assert forall|v: Seq<int>| v.len() == saved@.len() implies #[trigger] total(
                picked(v, order@),
            ) == total(v.take(i as int + 1)) by {
                lemma_total_insert(v, before, at as int, i);
                assert(total(picked(v, before)) == total(v.take(i as int)));
                assert(v.take(i as int + 1).drop_last() =~= v.take(i as int));
            }
        }
        i += 1;
    }
    proof {
        assert forall|v: Seq<int>| v.len() == saved@.len() implies #[trigger] total(
            picked(v, order@),
        ) == total(v) by {
            assert(v.take(i as int) =~= v);
        }
    }
    order
}

/// What the lists have given up so far, and what all of them hold.
#[verifier::ext_equal]
pub struct Run {
    pub given: Seq<int>,
    pub count: int,
    pub retained: int,
}

impl Run {
    /// Nothing was given up yet.
    pub open spec fn start(lists: Seq<FoldList>) -> Run {
        Run {
            given: Seq::new(lists.len(), |i: int| 0),
            count: total(counts(lists)),
            retained: total(sizes(lists)),
        }
    }

    /// A list gives up folds, unless all are within the bounds. `left` are the bytes that its slots
    /// without a fold still reserve after it was shrunk.
    pub open spec fn asked(self, list: FoldList, x: int, left: int) -> Run {
        if !over(self.count, self.retained) {
            self
        } else {
            let n = given(list.weights@, self.count, self.retained - list.unused);
            Run {
                given: self.given.update(x, n),
                count: self.count - n,
                retained: self.retained - list.unused - weight(list.weights@, n) + left,
            }
        }
    }
}

/// What holds once the first `k` lists of an order were asked in turn.
pub open spec fn run(lists: Seq<FoldList>, order: Seq<usize>, left: Seq<usize>, k: int) -> Run
    decreases k,
{
    if k <= 0 {
        Run::start(lists)
    } else {
        let x = order[k - 1] as int;
        run(lists, order, left, k - 1).asked(lists[x], x, left[x] as int)
    }
}

/// What the lists give up.
#[derive(Debug)]
pub struct Given {
    /// The order in which the lists are asked. The one in front is behind the saved ones.
    pub order: Vec<usize>,
    /// How many folds each list gives up from its start.
    pub folds: Vec<usize>,
    /// What is held then.
    pub budget: FoldBudget,
}

/// Brings the folds of all conversations within the bounds. The saved conversations are asked first,
/// the one that was used least recently before the others; then the one in front. `left` are the
/// bytes that the slots of each list without a fold still reserve after it was shrunk; the last is
/// that of the list in front.
pub fn enforce_fold_budget(saved: &Vec<FoldList>, front: &FoldList, left: &Vec<usize>) -> (r: Given)
    requires
        left@.len() == saved@.len() + 1,
        saved@.len() < usize::MAX,
        total(counts(saved@)) + front.weights@.len() <= usize::MAX,
        total(sizes(saved@)) + front.bytes() + total(numbers(left@)) <= usize::MAX,
    ensures
        r.order@.len() == saved@.len() + 1,
        in_order(saved@, r.order@.drop_last()),
        r.order@.last() == saved@.len(),
        ({
            let end = run(saved@.push(*front), r.order@, left@, r.order@.len() as int);
            &&& numbers(r.folds@) == end.given
            &&& r.budget.count == end.count
            &&& r.budget.retained == end.retained
        }),
{
    let ghost lists = saved@.push(*front);
    let ghost n = saved@.len() as int;
    let ghost lefts = numbers(left@);
    proof {
        lemma_front_behind(saved@, *front);
        lemma_all_nonnegative(lists);
        lemma_all_nonnegative(saved@);
        lemma_weight_grows(front.weights@, 0, front.weights@.len() as int);
        lemma_total_grows(lefts, 0, n);
        lemma_total_grows(lefts, 0, n + 1);
        assert(lefts.take(n + 1) =~= lefts);
    }
    let mut budget = fold_retention(saved, front);
    let mut order = oldest_first(saved);
    let ghost first = order@;
    order.push(saved.len());
    let mut folds: Vec<usize> = Vec::new();
    let mut i: usize = 0;
    while i < order.len()
        invariant
            i <= order@.len(),
            folds@.len() == i,
            forall|k: int| 0 <= k < i ==> folds@[k] == 0,
        decreases order@.len() - i,
    {
        folds.push(0);
        i += 1;
    }
    let ghost c = picked(counts(lists), order@);
    let ghost b = picked(sizes(lists), order@);
    let ghost l = picked(lefts, order@);
    proof {
        assert(order@.drop_last() =~= first);
        assert(lists.len() == order@.len());
        assert forall|v: Seq<int>| v.len() == lists.len() implies #[trigger] total(
            picked(v, order@),
        ) == total(v) by {
            assert(picked(v, order@).drop_last() =~= picked(v.drop_last(), first));
            assert(total(picked(v.drop_last(), first)) == total(v.drop_last()));
        }
        assert(total(c) == total(counts(lists)));
        assert(total(b) == total(sizes(lists)));
        assert(total(l) == total(lefts));
        assert(numbers(folds@) =~= Run::start(lists).given);
        assert(c.take(0) =~= seq![]);
        assert(b.take(0) =~= seq![]);
        assert(l.take(0) =~= seq![]);
    }
    let mut k: usize = 0;
    while k < order.len()
        invariant
            k <= order@.len(),
            lists == saved@.push(*front),
            n == saved@.len(),
            order@.len() == n + 1,
            left@.len() == n + 1,
            folds@.len() == n + 1,
            lefts == numbers(left@),
            c == picked(counts(lists), order@),
            b == picked(sizes(lists), order@),
            l == picked(lefts, order@),
            forall|p: int| 0 <= p < order@.len() ==> (#[trigger] order@[p]) < lists.len(),
            forall|p: int| 0 <= p < c.len() ==> #[trigger] c[p] >= 0,
            forall|p: int| 0 <= p < b.len() ==> #[trigger] b[p] >= 0,
            forall|p: int| 0 <= p < l.len() ==> #[trigger] l[p] >= 0,
            total(b) + total(l) <= usize::MAX,
            numbers(folds@) == run(lists, order@, left@, k as int).given,
            budget.count == run(lists, order@, left@, k as int).count,
            budget.retained == run(lists, order@, left@, k as int).retained,
            budget.count >= total(c) - total(c.take(k as int)),
            budget.retained >= total(b) - total(b.take(k as int)),
            budget.retained <= total(b) + total(l.take(k as int)),
        decreases order@.len() - k,
    {
        let x: usize = order[k];
        let ghost before = run(lists, order@, left@, k as int);
        let ghost was = folds@;
        let ghost list = lists[x as int];
        proof {
            assert(c.take(k as int + 1).drop_last() =~= c.take(k as int));
            assert(b.take(k as int + 1).drop_last() =~= b.take(k as int));
            assert(l.take(k as int + 1).drop_last() =~= l.take(k as int));
            lemma_total_grows(c, k as int + 1, c.len() as int);
            lemma_total_grows(b, k as int + 1, b.len() as int);
            lemma_total_grows(l, k as int + 1, l.len() as int);
            assert(c.take(c.len() as int) =~= c);
            assert(b.take(b.len() as int) =~= b);
            assert(l.take(l.len() as int) =~= l);
            assert(c[k as int] == list.weights@.len());
            assert(b[k as int] == list.bytes());
            assert(l[k as int] == left@[x as int]);
            lemma_weight_grows(list.weights@, 0, list.weights@.len() as int);
        }
        if budget.is_over() {
            let given: usize = if x < saved.len() {
                budget.drop_from(&saved[x].weights, saved[x].unused)
            } else {
                budget.drop_from(&front.weights, front.unused)
            };
            proof {
                lemma_weight_grows(list.weights@, 0, given as int);
                lemma_weight_grows(list.weights@, given as int, list.weights@.len() as int);
            }
            budget.shrunk(left[x]);
            folds.set(x, given);
            proof {
                assert(numbers(folds@) =~= before.given.update(x as int, given as int));
            }
        }
        k += 1;
    }
    Given { order, folds, budget }
}

proof fn lemma_front_behind(saved: Seq<FoldList>, front: FoldList)
    ensures
        total(counts(saved.push(front))) == total(counts(saved)) + front.weights@.len(),
        total(sizes(saved.push(front))) == total(sizes(saved)) + front.bytes(),
{
    let lists = saved.push(front);
    assert(counts(lists).drop_last() =~= counts(saved));
    assert(sizes(lists).drop_last() =~= sizes(saved));
}

/// Whether an order names every list once.
pub open spec fn each_once(order: Seq<usize>, n: int) -> bool {
    &&& order.len() == n
    &&& forall|p: int| 0 <= p < n ==> (#[trigger] order[p]) < n
    &&& forall|p: int, q: int|
        0 <= p < q < n ==> (#[trigger] order[p]) != (#[trigger] order[q])
}

/// Lists that are within the bounds give up nothing.
pub proof fn law_within_gives_nothing(
    lists: Seq<FoldList>,
    order: Seq<usize>,
    left: Seq<usize>,
    k: int,
)
    requires
        !over(total(counts(lists)), total(sizes(lists))),
    ensures
        run(lists, order, left, k) == Run::start(lists),
    decreases k,
{
    if k > 0 {
        law_within_gives_nothing(lists, order, left, k - 1);
    }
}

/// Where lists shrink to what they hold, they are emptied one after the other: a list gives up a fold
/// only once every list before it is empty. In the end all are within the bounds, or all are empty.
pub proof fn law_emptied_in_order(
    lists: Seq<FoldList>,
    order: Seq<usize>,
    left: Seq<usize>,
    k: int,
)
    requires
        each_once(order, lists.len() as int),
        left.len() == lists.len(),
        forall|i: int| 0 <= i < left.len() ==> left[i] == 0,
        0 <= k <= lists.len(),
    ensures
        ({
            let end = run(lists, order, left, k);
            &&& end.given.len() == lists.len()
            &&& forall|x: int|
                0 <= x < lists.len() ==> 0 <= #[trigger] end.given[x] <= lists[x].weights@.len()
            &&& forall|p: int| k <= p < lists.len() ==> end.given[(#[trigger] order[p]) as int] == 0
            &&& over(end.count, end.retained) ==> forall|p: int|
                0 <= p < k ==> end.given[(#[trigger] order[p]) as int]
                    == lists[order[p] as int].weights@.len()
            &&& forall|p: int, q: int|
                0 <= p < q < k && end.given[(#[trigger] order[q]) as int] > 0
                    ==> end.given[(#[trigger] order[p]) as int]
                    == lists[order[p] as int].weights@.len()
        }),
    decreases k,
{
    if k > 0 {
        law_emptied_in_order(lists, order, left, k - 1);
        let before = run(lists, order, left, k - 1);
        let end = run(lists, order, left, k);
        let x = order[k - 1] as int;
        let list = lists[x];
        if over(before.count, before.retained) {
            law_given_is_least(list.weights@, before.count, before.retained - list.unused);
            assert forall|p: int| 0 <= p < lists.len() && p != k - 1 implies end.given[(
            #[trigger] order[p]) as int] == before.given[order[p] as int] by {
                if p < k - 1 {
                    assert(order[p] != order[k - 1]);
                } else {
                    assert(order[k - 1] != order[p]);
                }
            }
            assert forall|y: int| 0 <= y < lists.len() implies 0 <= #[trigger] end.given[y]
                <= lists[y].weights@.len() by {
                if y != x {
                    assert(end.given[y] == before.given[y]);
                }
            }
        }
    }
}

/// What the fold budget comes to, where lists shrink to what they hold. Lists within the bounds give up
/// nothing. Otherwise each gives up folds from its start: the saved ones first, the one used least
/// recently before the others and of those used at the same time the one whose name comes first, then
/// the one in front; each is emptied before the next gives up any. In the end the bounds hold, or every
/// list is empty.
pub proof fn law_fold_budget(
    saved: Seq<FoldList>,
    front: FoldList,
    order: Seq<usize>,
    left: Seq<usize>,
)
    requires
        saved.len() < usize::MAX,
        order.len() == saved.len() + 1,
        in_order(saved, order.drop_last()),
        order.last() == saved.len(),
        left.len() == order.len(),
        forall|i: int| 0 <= i < left.len() ==> left[i] == 0,
    ensures
        ({
            let lists = saved.push(front);
            let end = run(lists, order, left, order.len() as int);
            &&& !over(total(counts(lists)), total(sizes(lists))) ==> end == Run::start(lists)
            &&& end.given.len() == lists.len()
            &&& forall|x: int|
                0 <= x < lists.len() ==> 0 <= #[trigger] end.given[x] <= lists[x].weights@.len()
            &&& forall|p: int, q: int|
                0 <= p < q < order.len() && end.given[(#[trigger] order[q]) as int] > 0
                    ==> end.given[(#[trigger] order[p]) as int]
                    == lists[order[p] as int].weights@.len()
            &&& !over(end.count, end.retained) || forall|x: int|
                0 <= x < lists.len() ==> #[trigger] end.given[x] == lists[x].weights@.len()
        }),
{
    let lists = saved.push(front);
    let n = lists.len() as int;
    let first = order.drop_last();
    let end = run(lists, order, left, n);
    assert forall|p: int| 0 <= p < n implies (#[trigger] order[p]) < n by {
        if p < n - 1 {
            assert(first[p] < saved.len());
        }
    }
    assert forall|p: int, q: int| 0 <= p < q < n implies (#[trigger] order[p]) != (
    #[trigger] order[q]) by {
        assert(first[p] < saved.len());
        if q < n - 1 {
            assert(first[p] != first[q]);
        }
    }
    law_emptied_in_order(lists, order, left, n);
    if !over(total(counts(lists)), total(sizes(lists))) {
        law_within_gives_nothing(lists, order, left, n);
    }
    if over(end.count, end.retained) {
        assert forall|x: int| 0 <= x < n implies #[trigger] end.given[x]
            == lists[x].weights@.len() by {
            if x == n - 1 {
                assert(end.given[order[n - 1] as int] == lists[x].weights@.len());
            } else {
                assert(first.contains(x as usize));
                let p = first.index_of(x as usize);
                assert(order[p] == first[p]);
                assert(end.given[order[p] as int] == lists[order[p] as int].weights@.len());
            }
        }
    }
}

/// More than 4,096 folds, or more than 1 MiB, are too much.
pub proof fn law_bounds_of_folds(count: int, retained: int)
    ensures
        over(count, retained) <==> count > 4096 || retained > 1048576,
{
}

/// The folds of the conversation that was used longest ago go first, and of two that were used at
/// the same time those whose name comes first; no two go before each other.
pub proof fn law_older(a: FoldList, b: FoldList)
    ensures
        a.used < b.used ==> older(a, b) && !older(b, a),
        a.used == b.used ==> (older(a, b) <==> text::before(a.name@, b.name@)),
        !(older(a, b) && older(b, a)),
{
    text::lemma_before(a.name@, b.name@);
}

/// Giving up folds frees what they retain, and as many as are given up are gone.
pub proof fn law_asked(r: Run, list: FoldList, x: int)
    requires
        0 <= x < r.given.len(),
        over(r.count, r.retained),
    ensures
        ({
            let w = r.asked(list, x, 0);
            let n = w.given[x];
            &&& w.count == r.count - n
            &&& w.retained == r.retained - list.unused - weight(list.weights@, n)
            &&& forall|y: int| 0 <= y < r.given.len() && y != x ==> w.given[y] == r.given[y]
        }),
        forall|s: Run, left: int|
            !over(s.count, s.retained) ==> #[trigger] s.asked(list, x, left) == s,
{
}

/// The weight of folds is the sum of the weights of each.
pub proof fn law_weight(v: Seq<usize>, n: int)
    requires
        0 <= n < v.len(),
    ensures
        weight(v, n + 1) == weight(v, n) + v[n],
        weight(v, 0) == 0,
{
}

} // verus!
