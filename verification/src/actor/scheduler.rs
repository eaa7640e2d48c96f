//! The shared substrate of a runtime: the deferred queue and the timer heap.

use crate::actor::handle::Actor;
use crate::actor::timer::{Timer, TimerHeap};
use crate::actor::work::{Behavior, Work};
use qcell::QCellOwnerID;
use std::collections::VecDeque;
use vstd::multiset::Multiset;
use vstd::prelude::*;
use vstd::seq_lib::group_to_multiset_ensures;

verus! {

/// What a core holds, as the contracts see it.
pub struct Schedule<W> {
    /// The arbitrator that the actors made here belong to.
    pub maker: QCellOwnerID,
    /// How many actors have been made.
    pub issued: nat,
    /// The deferred queue, next unit of work first.
    pub queue: Seq<W>,
    /// The timers that are waiting.
    pub timers: Multiset<Timer<W>>,
}

impl<W> Schedule<W> {
    /// An empty schedule.
    pub open spec fn empty(maker: QCellOwnerID) -> Self {
        Schedule { maker, issued: 0, queue: Seq::empty(), timers: Multiset::empty() }
    }

    /// The schedule after one more actor has been made.
    pub open spec fn issue(self) -> Self {
        Schedule { issued: self.issued + 1, ..self }
    }

    /// The schedule after `work` has been deferred.
    pub open spec fn defer(self, work: W) -> Self {
        Schedule { queue: self.queue.push(work), ..self }
    }

    /// The schedule after each of `works` has been deferred in turn.
    pub open spec fn defer_all(self, works: Seq<W>) -> Self
        decreases works.len(),
    {
        if works.len() == 0 {
            self
        } else {
            self.defer(works[0]).defer_all(works.drop_first())
        }
    }

    /// The schedule after `work` has been set to run at tick `time`.
    pub open spec fn timer(self, time: u32, work: W) -> Self {
        Schedule { timers: self.timers.insert(Timer { tick: time, work }), ..self }
    }

    /// The schedule after what waited for an actor has joined the queue.
    pub open spec fn flush(self, pending: Seq<W>) -> Self {
        Schedule { queue: self.queue + pending, ..self }
    }

    /// The schedule that the kernel goes on with when a unit of work that
    /// was handed `before` has left this one: what the work scheduled
    /// stands, the arbitrator is the same, and no actor is unmade.
    pub open spec fn reclaimed(self, before: Self) -> Self {
        Schedule {
            maker: before.maker,
            issued: if self.issued < before.issued {
                before.issued
            } else {
                self.issued
            },
            ..self
        }
    }

    /// The schedule once a round has taken the queued work.
    pub open spec fn begin_round(self) -> Self {
        Schedule { queue: Seq::empty(), ..self }
    }

    /// Whether no timer is due at `time`.
    pub open spec fn nothing_due(self, time: u32) -> bool {
        forall|timer: Timer<W>| #[trigger] self.timers.count(timer) > 0 ==> !timer.is_due(time)
    }

    /// `after` is this schedule once the timers that are due at `time` have
    /// been moved onto the deferred queue, and `fired` is those timers in
    /// the order in which they were moved: earliest first, timers of the
    /// same tick in any order.
    pub open spec fn promotes(self, time: u32, fired: Seq<Timer<W>>, after: Self) -> bool {
        &&& self.timers =~= after.timers.add(fired.to_multiset())
        &&& forall|i: int| 0 <= i < fired.len() ==> (#[trigger] fired[i]).is_due(time)
        &&& after.nothing_due(time)
        &&& forall|i: int, j: int|
            0 <= i <= j < fired.len() ==> (#[trigger] fired[i]).tick <= (#[trigger] fired[j]).tick
        &&& after.queue == self.queue + works_of(fired)
        &&& after.maker == self.maker
        &&& after.issued == self.issued
    }
}

/// The units of work of `fired`, in the same order.
pub open spec fn works_of<W>(fired: Seq<Timer<W>>) -> Seq<W> {
    fired.map_values(|timer: Timer<W>| timer.work)
}

/// The deferred queue and the timer heap, tagged with the arbitrator that
/// the actors made here belong to.
///
/// Work can be added to a core and actors can be made from it. Nothing that
/// was scheduled can be taken out again but by the runtime that runs it.
pub struct Core<W> {
    maker: QCellOwnerID,
    issued: usize,
    queue: VecDeque<W>,
    timers: TimerHeap<W>,
}

impl<W> View for Core<W> {
    type V = Schedule<W>;

    closed spec fn view(&self) -> Schedule<W> {
        Schedule {
            maker: self.maker,
            issued: self.issued as nat,
            queue: self.queue@,
            timers: self.timers@,
        }
    }
}

impl<T: Behavior> Core<Work<T>> {
    /// Makes an actor and defers its construction from `seed`.
    pub fn spawn(&mut self, seed: T::Seed) -> (actor: Actor<T>)
        requires
            old(self).has_room(),
        ensures
            actor.slot() == old(self)@.issued,
            actor.owner() == old(self)@.maker,
            final(self)@ == old(self)@.issue().defer(Work::ApplyPre(actor, seed)),
    {
        let actor = self.new_actor();
        self.defer(Work::ApplyPre(actor, seed));
        actor
    }
}

impl<W> Core<W> {
    /// An empty core for the arbitrator `maker`.
    pub(crate) fn new(maker: QCellOwnerID) -> (core: Self)
        ensures
            core@ == Schedule::<W>::empty(maker),
    {
        Core { maker, issued: 0, queue: VecDeque::new(), timers: TimerHeap::new() }
    }

    /// Whether another actor can be made.
    pub open spec fn has_room(&self) -> bool {
        self@.issued < usize::MAX
    }

    /// The arbitrator that the actors made here belong to.
    pub fn maker(&self) -> (maker: QCellOwnerID)
        ensures
            maker == self@.maker,
    {
        self.maker
    }

    /// How many actors have been made.
    pub fn issued(&self) -> (issued: usize)
        ensures
            issued == self@.issued,
    {
        self.issued
    }

    /// How many units of work are queued.
    pub fn queue_len(&self) -> (queued: usize)
        ensures
            queued == self@.queue.len(),
    {
        self.queue.len()
    }

    /// How many timers are waiting.
    pub fn timer_count(&self) -> (waiting: usize)
        ensures
            waiting == self@.timers.len(),
    {
        self.timers.len()
    }

    /// The earliest tick at which a waiting timer is due.
    pub fn next_timer(&self) -> (next: Option<u32>)
        ensures
            next is None <==> self@.timers.len() == 0,
            next matches Some(tick) ==> exists|timer: Timer<W>|
                timer.tick == tick && #[trigger] TimerHeap::fires_first(self@.timers, timer),
    {
        self.timers.peek()
    }

    /// A handle to a new actor, which starts out waiting to be constructed.
    pub fn new_actor<T>(&mut self) -> (actor: Actor<T>)
        requires
            old(self).has_room(),
        ensures
            actor.slot() == old(self)@.issued,
            actor.owner() == old(self)@.maker,
            final(self)@ == old(self)@.issue(),
    {
        let actor = Actor::issue(self.issued, self.maker);
        self.issued = self.issued + 1;
        actor
    }

    /// Takes the core back from a unit of work that was handed it while
    /// it held `before`: whatever the work left, the core still makes
    /// actors for the same arbitrator and gives no slot out twice.
    pub(crate) fn reclaim(&mut self, Ghost(before): Ghost<Schedule<W>>, issued: usize, maker: QCellOwnerID)
        requires
            issued == before.issued,
            maker == before.maker,
        ensures
            final(self)@ == old(self)@.reclaimed(before),
    {
        self.maker = maker;
        if self.issued < issued {
            self.issued = issued;
        }
    }

    /// Appends what waited for an actor to the queue.
    pub(crate) fn flush(&mut self, pending: &mut VecDeque<W>)
        ensures
            final(self)@ == old(self)@.flush(old(pending)@),
            final(pending)@ == Seq::<W>::empty(),
    {
        self.queue.append(pending);
    }

    /// Schedules `work` to run later in the current tick, after the work
    /// that is already queued.
    pub fn defer(&mut self, work: W)
        ensures
            final(self)@ == old(self)@.defer(work),
    {
        self.queue.push_back(work);
    }

    /// Schedules `work` to run once tick `time` is reached or passed.
    pub fn timer(&mut self, time: u32, work: W)
        ensures
            final(self)@ == old(self)@.timer(time, work),
    {
        self.timers.push(Timer::new(time, work));
    }

    /// Starts a round: hands out the queued work in the order in which it
    /// was queued and leaves the queue empty for what that work schedules.
    pub(crate) fn take_round(&mut self) -> (batch: VecDeque<W>)
        ensures
            batch@ == old(self)@.queue,
            final(self)@ == old(self)@.begin_round(),
    {
        let mut batch: VecDeque<W> = VecDeque::new();
        core::mem::swap(&mut batch, &mut self.queue);
        batch
    }

    /// Moves every timer that is due at `time` onto the deferred queue,
    /// earliest first, and tells which timers it moved.
    pub(crate) fn promote(&mut self, time: u32) -> (fired: Ghost<Seq<Timer<W>>>)
        ensures
            old(self)@.promotes(time, fired@, final(self)@),
    {
        broadcast use group_to_multiset_ensures;

        let ghost mut fired: Seq<Timer<W>> = Seq::empty();
        assert(fired.to_multiset() =~= Multiset::<Timer<W>>::empty());
        assert(self.queue@ =~= old(self).queue@ + works_of(fired));
        loop
            invariant
                old(self).timers@ =~= self.timers@.add(fired.to_multiset()),
                forall|i: int| 0 <= i < fired.len() ==> (#[trigger] fired[i]).is_due(time),
                forall|i: int, j: int|
                    0 <= i <= j < fired.len() ==> (#[trigger] fired[i]).tick <= (
                    #[trigger] fired[j]).tick,
                forall|i: int, timer: Timer<W>|
                    0 <= i < fired.len() && #[trigger] self.timers@.count(timer) > 0 ==> (
                    #[trigger] fired[i]).tick <= timer.tick,
                self.queue@ == old(self).queue@ + works_of(fired),
                self.maker == old(self).maker,
                self.issued == old(self).issued,
            ensures
                self@.nothing_due(time),
            decreases self.timers@.len(),
        {
            let ghost waiting = self.timers@;
            match self.timers.peek() {
                None => {
                    assert forall|timer: Timer<W>| #[trigger]
                        self.timers@.count(timer) > 0 implies !timer.is_due(time) by {
                        lemma_empty_holds_nothing(self.timers@, timer);
                    }
                    break ;
                },
                Some(tick) => {
                    if tick > time {
                        break ;
                    }
                },
            }
            let popped = self.timers.pop();
            match popped {
                None => {
                    assert(false);
                },
                Some(timer) => {
                    proof {
                        let first = choose|first: Timer<W>|
                            first.tick <= time && #[trigger] TimerHeap::fires_first(waiting, first);
                        assert(timer.tick <= first.tick);
                        let before = fired;
                        fired = fired.push(timer);
                        vstd::seq_lib::to_multiset_build(before, timer);
                        assert(fired.to_multiset() =~= before.to_multiset().insert(timer));
                        assert(waiting.count(timer) > 0);
                        assert(waiting.add(before.to_multiset()) =~= waiting.remove(timer).add(
                            before.to_multiset().insert(timer),
                        ));
                        assert(works_of(fired) =~= works_of(before).push(timer.work));
                        assert(old(self).queue@ + works_of(fired) =~= (old(self).queue@ + works_of(
                            before,
                        )).push(timer.work));
                        assert forall|i: int, j: int| 0 <= i <= j < fired.len() implies (
                        #[trigger] fired[i]).tick <= (#[trigger] fired[j]).tick by {
                            if j == before.len() && i < j {
                                assert(before[i].tick <= timer.tick);
                            }
                        }
                        assert forall|i: int, other: Timer<W>|
                            0 <= i < fired.len() && #[trigger] self.timers@.count(other)
                                > 0 implies (#[trigger] fired[i]).tick <= other.tick by {
                            assert(waiting.count(other) > 0);
                            if i < before.len() {
                                assert(before[i].tick <= other.tick);
                            }
                        }
                    }
                    self.queue.push_back(timer.work);
                },
            }
        }
        Ghost(fired)
    }
}

proof fn lemma_empty_holds_nothing<W>(pending: Multiset<Timer<W>>, timer: Timer<W>)
    requires
        pending.len() == 0,
    ensures
        pending.count(timer) == 0,
{
    if pending.count(timer) > 0 {
        assert(pending.remove(timer).len() == pending.len() - 1);
    }
}

/// What a unit of work is handed while it runs: the core, and the identity
/// of the actor that the work belongs to.
pub struct Context<'a, T, W> {
    pub core: &'a mut Core<W>,
    pub actor: &'a Actor<T>,
}

impl<'a, T, W> std::ops::Deref for Context<'a, T, W> {
    type Target = Core<W>;

    fn deref(&self) -> (core: &Core<W>)
        ensures
            *core == *old(self.core),
    {
        self.core
    }
}

impl<'a, T, W> Context<'a, T, W> {
    /// A fresh handle to the actor that is running.
    pub fn actor(&self) -> (actor: Actor<T>)
        ensures
            actor == *self.actor,
    {
        self.actor.actor()
    }

    /// A handle to a new actor. See [`Core::new_actor`].
    pub fn new_actor(&mut self) -> (actor: Actor<T>)
        requires
            old(self).core.has_room(),
        ensures
            actor.slot() == old(self).core@.issued,
            actor.owner() == old(self).core@.maker,
            final(self).core@ == old(self).core@.issue(),
            final(self).actor == old(self).actor,
            mut_ref_future(final(self).core) == mut_ref_future(old(self).core),
    {
        self.core.new_actor()
    }

    /// Schedules `work` to run later in the current tick. See [`Core::defer`].
    pub fn defer(&mut self, work: W)
        ensures
            final(self).core@ == old(self).core@.defer(work),
            final(self).actor == old(self).actor,
            mut_ref_future(final(self).core) == mut_ref_future(old(self).core),
    {
        self.core.defer(work);
    }

    /// Schedules `work` to run once tick `time` is reached or passed. See
    /// [`Core::timer`].
    pub fn timer(&mut self, time: u32, work: W)
        ensures
            final(self).core@ == old(self).core@.timer(time, work),
            final(self).actor == old(self).actor,
            mut_ref_future(final(self).core) == mut_ref_future(old(self).core),
    {
        self.core.timer(time, work);
    }
}

} // verus!
