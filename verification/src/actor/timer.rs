//! The timer heap: one-shot units of work keyed by the tick at which they
//! become eligible to run.
//!
//! The heap is a binary min-heap laid out in a vector. Its contents are
//! described as a multiset, because entries with the same trigger tick leave
//! the heap in no particular order.

use vstd::multiset::Multiset;
use vstd::prelude::*;

verus! {

/// A unit of work together with the tick at which it becomes due.
pub struct Timer<W> {
    pub tick: u32,
    pub work: W,
}

impl<W> Timer<W> {
    pub fn new(tick: u32, work: W) -> (timer: Self)
        ensures
            timer.tick == tick,
            timer.work == work,
    {
        Timer { tick, work }
    }

    /// Whether the timer may fire at `time`.
    pub open spec fn is_due(self, time: u32) -> bool {
        self.tick <= time
    }

    pub fn due(&self, time: u32) -> (due: bool)
        ensures
            due == self.is_due(time),
    {
        self.tick <= time
    }
}

/// The index of the parent of node `i` in the implicit binary tree.
pub open spec fn parent(i: int) -> int {
    (i - 1) / 2
}

/// Every node fires no earlier than its parent.
pub open spec fn heap_ordered<W>(s: Seq<Timer<W>>) -> bool {
    forall|i: int| 0 < i < s.len() ==> s[parent(i)].tick <= (#[trigger] s[i]).tick
}

/// Heap order holds everywhere except possibly between `k` and its parent;
/// the children of `k` already respect the parent of `k`.
spec fn ordered_above<W>(s: Seq<Timer<W>>, k: int) -> bool {
    &&& forall|i: int| 0 < i < s.len() && i != k ==> s[parent(i)].tick <= (#[trigger] s[i]).tick
    &&& forall|i: int|
        0 < i < s.len() && parent(i) == k && k > 0 ==> s[parent(k)].tick <= (#[trigger] s[i]).tick
}

/// Heap order holds everywhere except possibly between `k` and its children;
/// the children of `k` already respect the parent of `k`.
spec fn ordered_below<W>(s: Seq<Timer<W>>, k: int) -> bool {
    &&& forall|i: int|
        0 < i < s.len() && parent(i) != k ==> s[parent(i)].tick <= (#[trigger] s[i]).tick
    &&& forall|i: int|
        0 < i < s.len() && parent(i) == k && k > 0 ==> s[parent(k)].tick <= (#[trigger] s[i]).tick
}

/// `s` with the entries at `i` and `j` exchanged.
spec fn exchanged<W>(s: Seq<Timer<W>>, i: int, j: int) -> Seq<Timer<W>> {
    s.update(i, s[j]).update(j, s[i])
}

proof fn lemma_update_multiset<W>(s: Seq<Timer<W>>, i: int, t: Timer<W>)
    requires
        0 <= i < s.len(),
    ensures
        s.update(i, t).to_multiset() =~= s.to_multiset().remove(s[i]).insert(t),
{
    broadcast use vstd::seq_lib::group_to_multiset_ensures;

    assert(s.update(i, t) =~= s.remove(i).insert(i, t));
    vstd::seq_lib::to_multiset_remove(s, i);
    vstd::seq_lib::to_multiset_insert(s.remove(i), i, t);
}

proof fn lemma_exchanged_multiset<W>(s: Seq<Timer<W>>, i: int, j: int)
    requires
        0 <= i < s.len(),
        0 <= j < s.len(),
    ensures
        exchanged(s, i, j).to_multiset() =~= s.to_multiset(),
{
    broadcast use vstd::seq_lib::group_to_multiset_ensures;

    let mid = s.update(i, s[j]);
    lemma_update_multiset(s, i, s[j]);
    lemma_update_multiset(mid, j, s[i]);
    if i == j {
        assert(s.to_multiset().count(s[i]) > 0);
    } else {
        assert(mid[j] == s[j]);
        assert(s.to_multiset().count(s[i]) > 0);
        assert(s.to_multiset().count(s[j]) > 0);
    }
}

/// In a heap-ordered sequence no entry fires before the root.
pub proof fn lemma_root_fires_first<W>(s: Seq<Timer<W>>, i: int)
    requires
        heap_ordered(s),
        0 <= i < s.len(),
    ensures
        s[0].tick <= s[i].tick,
    decreases i,
{
    if i > 0 {
        lemma_root_fires_first(s, parent(i));
    }
}

/// Exchanges the entries at `i` and `j`.
fn exchange<W>(items: &mut Vec<Timer<W>>, i: usize, j: usize)
    requires
        i < j < old(items).len(),
    ensures
        final(items)@ == exchanged(old(items)@, i as int, j as int),
        final(items)@.to_multiset() == old(items)@.to_multiset(),
{
    let (left, right) = items.as_mut_slice().split_at_mut(j);
    core::mem::swap(&mut left[i], &mut right[0]);
    proof {
        assert(items@ =~= exchanged(old(items)@, i as int, j as int));
        lemma_exchanged_multiset(old(items)@, i as int, j as int);
    }
}

/// Moves the entry at `start` towards the root until its parent fires no later.
fn sift_up<W>(items: &mut Vec<Timer<W>>, start: usize)
    requires
        start < old(items).len(),
        ordered_above(old(items)@, start as int),
    ensures
        heap_ordered(final(items)@),
        final(items)@.to_multiset() == old(items)@.to_multiset(),
{
    let mut k: usize = start;
    while k > 0
        invariant
            k < items.len(),
            ordered_above(items@, k as int),
            items@.to_multiset() == old(items)@.to_multiset(),
        ensures
            heap_ordered(items@),
        decreases k,
    {
        let p: usize = (k - 1) / 2;
        if items[p].tick <= items[k].tick {
            break ;
        }
        exchange(items, p, k);
        k = p;
    }
}

/// Moves the root towards the leaves until both children fire no earlier.
fn sift_down<W>(items: &mut Vec<Timer<W>>)
    requires
        ordered_below(old(items)@, 0),
    ensures
        heap_ordered(final(items)@),
        final(items)@.to_multiset() == old(items)@.to_multiset(),
{
    let n: usize = items.len();
    let mut k: usize = 0;
    while k < n / 2
        invariant
            n == items.len(),
            ordered_below(items@, k as int),
            items@.to_multiset() == old(items)@.to_multiset(),
        ensures
            heap_ordered(items@),
        decreases n - k,
    {
        let left: usize = 2 * k + 1;
        let right: usize = left + 1;
        let child: usize = if right < n && items[right].tick < items[left].tick {
            right
        } else {
            left
        };
        if items[k].tick <= items[child].tick {
            break ;
        }
        exchange(items, k, child);
        k = child;
    }
}

proof fn lemma_swap_remove_root<W>(s: Seq<Timer<W>>)
    requires
        s.len() > 0,
    ensures
        s.update(0, s.last()).drop_last().to_multiset() =~= s.to_multiset().remove(s[0]),
{
    broadcast use vstd::seq_lib::group_to_multiset_ensures;

    let n = s.len() as int;
    let moved = s.update(0, s.last());
    lemma_update_multiset(s, 0, s.last());
    assert(moved.drop_last() =~= moved.remove(n - 1));
    vstd::seq_lib::to_multiset_remove(moved, n - 1);
    assert(moved[n - 1] == s.last());
    assert(s.to_multiset().count(s[0]) > 0);
}

/// Adds `timer` to the heap held in `items`.
fn insert_entry<W>(items: &mut Vec<Timer<W>>, timer: Timer<W>)
    requires
        heap_ordered(old(items)@),
    ensures
        heap_ordered(final(items)@),
        final(items)@.to_multiset() == old(items)@.to_multiset().insert(timer),
{
    broadcast use vstd::seq_lib::group_to_multiset_ensures;

    items.push(timer);
    let last: usize = items.len() - 1;
    sift_up(items, last);
}

/// Removes the root of the non-empty heap held in `items`.
fn remove_root<W>(items: &mut Vec<Timer<W>>) -> (root: Timer<W>)
    requires
        old(items).len() > 0,
        heap_ordered(old(items)@),
    ensures
        root == old(items)@[0],
        heap_ordered(final(items)@),
        final(items)@.to_multiset() == old(items)@.to_multiset().remove(root),
{
    let root = items.swap_remove(0);
    proof {
        lemma_swap_remove_root(old(items)@);
    }
    sift_down(items);
    root
}

/// A min-priority queue of timers, ordered by trigger tick.
pub struct TimerHeap<W> {
    items: Vec<Timer<W>>,
}

impl<W> TimerHeap<W> {
    #[verifier::type_invariant]
    spec fn well_formed(&self) -> bool {
        heap_ordered(self.items@)
    }

    /// The timers that are waiting, as a multiset.
    pub closed spec fn view(&self) -> Multiset<Timer<W>> {
        self.items@.to_multiset()
    }

    /// No waiting timer fires before `timer`.
    pub open spec fn fires_first(pending: Multiset<Timer<W>>, timer: Timer<W>) -> bool {
        &&& pending.count(timer) > 0
        &&& forall|other: Timer<W>| pending.count(other) > 0 ==> timer.tick <= other.tick
    }

    pub fn new() -> (heap: Self)
        ensures
            heap@ == Multiset::<Timer<W>>::empty(),
    {
        broadcast use vstd::seq_lib::group_to_multiset_ensures;

        let heap = TimerHeap { items: Vec::new() };
        assert(heap.items@.to_multiset() =~= Multiset::<Timer<W>>::empty());
        heap
    }

    pub fn len(&self) -> (n: usize)
        ensures
            n == self@.len(),
    {
        broadcast use vstd::seq_lib::group_to_multiset_ensures;

        self.items.len()
    }

    pub fn is_empty(&self) -> (empty: bool)
        ensures
            empty == (self@.len() == 0),
    {
        broadcast use vstd::seq_lib::group_to_multiset_ensures;

        self.items.len() == 0
    }

    /// The earliest trigger tick among the waiting timers.
    pub fn peek(&self) -> (next: Option<u32>)
        ensures
            next is None <==> self@.len() == 0,
            next matches Some(tick) ==> exists|timer: Timer<W>|
                timer.tick == tick && #[trigger] Self::fires_first(self@, timer),
    {
        broadcast use vstd::seq_lib::group_to_multiset_ensures;

        if self.items.len() == 0 {
            None
        } else {
            proof {
                use_type_invariant(self);
                self.lemma_root(self.items@[0]);
            }
            Some(self.items[0].tick)
        }
    }

    proof fn lemma_root(&self, root: Timer<W>)
        requires
            heap_ordered(self.items@),
            self.items@.len() > 0,
            root == self.items@[0],
        ensures
            Self::fires_first(self@, root),
    {
        broadcast use vstd::seq_lib::group_to_multiset_ensures;

        assert(self.items@.contains(root));
        assert forall|other: Timer<W>| self@.count(other) > 0 implies root.tick <= other.tick by {
            assert(self.items@.contains(other));
            let i = choose|i: int| 0 <= i < self.items@.len() && self.items@[i] == other;
            lemma_root_fires_first(self.items@, i);
        }
    }

    /// Schedules `timer`.
    pub fn push(&mut self, timer: Timer<W>)
        ensures
            final(self)@ == old(self)@.insert(timer),
    {
        proof {
            use_type_invariant(&*self);
        }
        let mut items: Vec<Timer<W>> = Vec::new();
        core::mem::swap(&mut self.items, &mut items);
        insert_entry(&mut items, timer);
        core::mem::swap(&mut self.items, &mut items);
    }

    /// Removes a timer that no other waiting timer precedes.
    pub fn pop(&mut self) -> (popped: Option<Timer<W>>)
        ensures
            match popped {
                Some(timer) => {
                    &&& Self::fires_first(old(self)@, timer)
                    &&& final(self)@ == old(self)@.remove(timer)
                },
                None => old(self)@.len() == 0 && final(self)@ == old(self)@,
            },
    {
        broadcast use vstd::seq_lib::group_to_multiset_ensures;

        proof {
            use_type_invariant(&*self);
        }
        if self.items.len() == 0 {
            return None;
        }
        proof {
            self.lemma_root(self.items@[0]);
        }
        let mut items: Vec<Timer<W>> = Vec::new();
        core::mem::swap(&mut self.items, &mut items);
        let root = remove_root(&mut items);
        core::mem::swap(&mut self.items, &mut items);
        Some(root)
    }
}

} // verus!
