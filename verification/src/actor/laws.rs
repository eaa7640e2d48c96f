//! What the kernel guarantees across calls, stated over the models that its
//! contracts use.

use crate::actor::arbiter::Stage;
use crate::actor::handle::Actor;
use crate::actor::runtime::{lemma_follows_chain, lemma_nothing_fires, Outcome, Snapshot};
use crate::actor::scheduler::{works_of, Schedule};
use crate::actor::timer::Timer;
use crate::actor::work::{Behavior, Work};
use vstd::prelude::*;

verus! {

/// Deferring `works` one by one appends them to the queue in the order in
/// which they were deferred, and touches nothing else.
pub proof fn lemma_defer_all<W>(schedule: Schedule<W>, works: Seq<W>)
    ensures
        schedule.defer_all(works) == (Schedule { queue: schedule.queue + works, ..schedule }),
    decreases works.len(),
{
    if works.len() == 0 {
        assert(schedule.queue + works =~= schedule.queue);
    } else {
        lemma_defer_all(schedule.defer(works[0]), works.drop_first());
        assert(schedule.queue.push(works[0]) + works.drop_first() =~= schedule.queue + works);
    }
}

/// Rounds are first in, first out, and work never runs in the round in
/// which it was deferred.
///
/// A round takes the queue as it stands, so the work that it runs, and the
/// order in which it runs it, is settled before any of that work runs. What
/// is deferred while the round runs is exactly the batch of the next round,
/// in the order in which it was deferred.
pub proof fn law_rounds_are_fifo<W>(schedule: Schedule<W>, works: Seq<W>)
    ensures
        schedule.begin_round().queue.len() == 0,
        schedule.begin_round().defer_all(works).queue == works,
        schedule.begin_round().defer_all(works).timers == schedule.timers,
{
    lemma_defer_all(schedule.begin_round(), works);
    assert(Seq::<W>::empty() + works =~= works);
}

/// Buffering `works` for an actor that is not constructed appends them to
/// what waits for it, in arrival order, and touches nothing else.
pub proof fn lemma_buffer_all<T, W>(state: Snapshot<T, W>, actor: Actor<T>, works: Seq<W>)
    requires
        state.stage(actor) is Pre,
    ensures
        state.buffer_all(actor, works).stage(actor) == Stage::<T, W>::Pre(
            state.stage(actor).pending() + works,
        ),
        state.buffer_all(actor, works).schedule == state.schedule,
        state.buffer_all(actor, works).ident == state.ident,
        state.buffer_all(actor, works).round_limit == state.round_limit,
        forall|other: Actor<T>|
            other.slot() != actor.slot() ==> #[trigger] state.buffer_all(actor, works).stage(other)
                == state.stage(other),
    decreases works.len(),
{
    let pending = state.stage(actor).pending();
    if works.len() == 0 {
        assert(pending + works =~= pending);
    } else {
        let next = state.buffer(actor, works[0]);
        lemma_buffer_all(next, actor, works.drop_first());
        assert(pending.push(works[0]) + works.drop_first() =~= pending + works);
    }
}

/// What is sent to an actor before it is constructed waits for it, and is
/// flushed in arrival order when the actor is constructed.
///
/// While the actor is not constructed, sending to it changes neither the
/// deferred queue nor the timers, so none of it can run. Constructing the
/// actor appends all of it to the deferred queue in the order in which it
/// was sent.
pub proof fn law_buffered_work_flushes_in_order<T, W>(
    state: Snapshot<T, W>,
    actor: Actor<T>,
    works: Seq<W>,
    value: T,
)
    requires
        state.stage(actor) is Pre,
    ensures
        state.buffer_all(actor, works).stage(actor) is Pre,
        state.buffer_all(actor, works).schedule == state.schedule,
        state.buffer_all(actor, works).promote(actor, value).stage(actor) == Stage::<T, W>::Ready(
            value,
        ),
        state.buffer_all(actor, works).promote(actor, value).schedule.queue == state.schedule.queue
            + state.stage(actor).pending() + works,
{
    lemma_buffer_all(state, actor, works);
    assert(state.schedule.queue + (state.stage(actor).pending() + works) =~= state.schedule.queue
        + state.stage(actor).pending() + works);
}

/// Construction happens once.
///
/// Once a construction attempt has succeeded, the actor is ready, and a
/// further attempt changes nothing, whatever its constructor would have
/// done or returned.
pub proof fn law_construction_happens_once<T, W>(
    state: Snapshot<T, W>,
    actor: Actor<T>,
    between: Schedule<W>,
    value: T,
    later: Schedule<W>,
    again: Option<T>,
)
    requires
        state.stage(actor) is Pre,
    ensures
        state.apply_pre(actor, between, Some(value)).stage(actor) == Stage::<T, W>::Ready(value),
        state.apply_pre(actor, between, Some(value)).apply_pre(actor, later, again)
            == state.apply_pre(actor, between, Some(value)),
{
}

/// A failed construction attempt leaves the actor as it was.
pub proof fn law_failed_construction_changes_no_actor<T, W>(
    state: Snapshot<T, W>,
    actor: Actor<T>,
    between: Schedule<W>,
)
    ensures
        state.apply_pre(actor, between, None).stages == state.stages,
{
}

/// A ready actor stays ready.
pub proof fn law_ready_is_final<T, W>(
    state: Snapshot<T, W>,
    actor: Actor<T>,
    work: W,
    between: Schedule<W>,
    value: T,
    outcome: Option<T>,
    other: Actor<T>,
)
    requires
        state.stage(other) is Ready,
    ensures
        state.apply(actor, work, between, value).stage(other) is Ready,
        state.apply_pre(actor, between, outcome).stage(other) is Ready,
{
}

/// A timer fires when it is due, and then exactly once.
///
/// Promotion at a time before the timer's tick leaves it in the heap and
/// moves no copy of it. Promotion at or after its tick moves it onto the
/// deferred queue as often as it was scheduled and leaves none of it
/// behind, so that no later promotion can move it again.
pub proof fn law_timer_fires_once_when_due<W>(
    before: Schedule<W>,
    time: u32,
    fired: Seq<Timer<W>>,
    after: Schedule<W>,
    timer: Timer<W>,
)
    requires
        before.promotes(time, fired, after),
    ensures
        timer.tick > time ==> fired.to_multiset().count(timer) == 0 && after.timers.count(timer)
            == before.timers.count(timer),
        timer.tick <= time ==> fired.to_multiset().count(timer) == before.timers.count(timer)
            && after.timers.count(timer) == 0,
        after.queue.len() == before.queue.len() + fired.len(),
        forall|i: int|
            0 <= i < fired.len() ==> #[trigger] after.queue[before.queue.len() + i]
                == fired[i].work,
{
    broadcast use vstd::seq_lib::group_to_multiset_ensures;

    if timer.tick > time && fired.to_multiset().count(timer) > 0 {
        assert(fired.contains(timer));
        let i = choose|i: int| 0 <= i < fired.len() && fired[i] == timer;
        assert(fired[i].is_due(time));
    }
    assert(works_of(fired).len() == fired.len());
}

/// Where the only timer that waits is due, promotion queues its work and
/// leaves no timer behind.
pub proof fn law_single_due_timer_is_queued<W>(
    before: Schedule<W>,
    time: u32,
    fired: Seq<Timer<W>>,
    after: Schedule<W>,
    timer: Timer<W>,
)
    requires
        before.promotes(time, fired, after),
        before.timers == vstd::multiset::Multiset::<Timer<W>>::empty().insert(timer),
        timer.is_due(time),
    ensures
        fired == seq![timer],
        after.timers == vstd::multiset::Multiset::<Timer<W>>::empty(),
        after.queue == before.queue.push(timer.work),
        after.maker == before.maker,
        after.issued == before.issued,
{
    broadcast use vstd::seq_lib::group_to_multiset_ensures;

    assert(before.timers.count(timer) == 1);
    assert(after.timers.count(timer) == 0);
    assert(fired.to_multiset().count(timer) == 1);
    assert(before.timers.len() == 1);
    assert(fired.to_multiset().len() + after.timers.len() == 1);
    assert(fired.len() == fired.to_multiset().len());
    assert(fired.len() == 1) by {
        if fired.len() == 0 {
            assert(fired.to_multiset().count(timer) == 0);
        }
    }
    assert(fired.contains(timer));
    assert(fired[0] == timer);
    assert(fired =~= seq![timer]);
    assert(after.timers.len() == 0);
    assert(after.timers =~= vstd::multiset::Multiset::<Timer<W>>::empty()) by {
        assert forall|other: Timer<W>| after.timers.count(other) == 0 by {
            if after.timers.count(other) > 0 {
                assert(before.timers.count(other) > 0);
            }
        }
    }
    assert(works_of(fired) =~= seq![timer.work]);
    assert(before.queue + works_of(fired) =~= before.queue.push(timer.work));
}

/// Handles to the same actor are interchangeable: what is done through one
/// is seen through the other.
pub proof fn law_clones_name_the_same_actor<T, W>(
    state: Snapshot<T, W>,
    actor: Actor<T>,
    clone: Actor<T>,
    work: W,
    value: T,
)
    requires
        clone == actor,
    ensures
        state.stage(clone) == state.stage(actor),
        state.buffer(actor, work).stage(clone) == state.buffer(actor, work).stage(actor),
        state.promote(actor, value).stage(clone) == Stage::<T, W>::Ready(value),
        state.with_value(actor, value).stage(clone) == Stage::<T, W>::Ready(value),
{
}

/// Executing a unit of work keeps the arbitrator, keeps every ready actor
/// ready, and keeps the runtime in order.
pub proof fn lemma_executes_follows<T: Behavior>(
    before: Snapshot<T, Work<T>>,
    work: Work<T>,
    after: Snapshot<T, Work<T>>,
)
    requires
        before.executes(work, after),
    ensures
        after.follows(before),
{
}

/// Running a batch keeps the arbitrator, keeps every ready actor ready,
/// and keeps the runtime in order.
pub proof fn lemma_runs_follows<T: Behavior>(
    before: Snapshot<T, Work<T>>,
    batch: Seq<Work<T>>,
    after: Snapshot<T, Work<T>>,
)
    requires
        before.runs(batch, after),
    ensures
        after.follows(before),
    decreases batch.len(),
{
    if batch.len() > 0 {
        let mid = choose|mid: Snapshot<T, Work<T>>|
            #[trigger] before.executes(batch.first(), mid) && mid.runs(batch.drop_first(), after);
        lemma_executes_follows(before, batch.first(), mid);
        lemma_runs_follows(mid, batch.drop_first(), after);
        lemma_follows_chain(before, mid, after);
    }
}

/// Rounds keep the arbitrator, keep every ready actor ready, and keep the
/// runtime in order.
pub proof fn lemma_drains_follows<T: Behavior>(
    before: Snapshot<T, Work<T>>,
    rounds: nat,
    after: Snapshot<T, Work<T>>,
)
    requires
        before.drains(rounds, after),
    ensures
        after.follows(before),
    decreases rounds,
{
    if rounds > 0 {
        let mid = choose|mid: Snapshot<T, Work<T>>|
            #[trigger] before.begin_round().runs(before.schedule.queue, mid) && mid.drains(
                (rounds - 1) as nat,
                after,
            );
        lemma_runs_follows(before.begin_round(), before.schedule.queue, mid);
        lemma_drains_follows(mid, (rounds - 1) as nat, after);
        lemma_follows_chain(before, before.begin_round(), mid);
        lemma_follows_chain(before, mid, after);
    }
}

/// A batch runs first in, first out: its first unit of work is executed
/// on the runtime as it stands, and the rest of the batch runs on what
/// that left.
pub proof fn law_batch_runs_first_to_last<T: Behavior>(
    before: Snapshot<T, Work<T>>,
    batch: Seq<Work<T>>,
    after: Snapshot<T, Work<T>>,
)
    requires
        before.runs(batch, after),
        batch.len() > 0,
    ensures
        exists|mid: Snapshot<T, Work<T>>|
            #[trigger] before.executes(batch.first(), mid) && mid.runs(batch.drop_first(), after),
{
}

/// A tick goes round by round, and work never runs in the round in which
/// it was deferred.
///
/// With work queued and a round to go, a tick that is not abandoned takes
/// the queue as it stands, leaving it empty, and runs that batch; what the
/// batch deferred is the queue that the rest of the tick starts from.
pub proof fn law_tick_goes_round_by_round<T: Behavior>(
    before: Snapshot<T, Work<T>>,
    budget: nat,
    outcome: Outcome,
    after: Snapshot<T, Work<T>>,
)
    requires
        before.settles(budget, outcome, after),
        before.schedule.queue.len() > 0,
        budget > 0,
        outcome != Outcome::InvariantViolation,
    ensures
        before.begin_round().schedule.queue.len() == 0,
        exists|mid: Snapshot<T, Work<T>>|
            #[trigger] before.begin_round().runs(before.schedule.queue, mid) && mid.settles(
                (budget - 1) as nat,
                outcome,
                after,
            ),
{
}

/// A tick ends where no work is queued: with nothing queued the tick is
/// quiescent and changes nothing further.
pub proof fn law_tick_ends_without_work<T: Behavior>(
    before: Snapshot<T, Work<T>>,
    budget: nat,
    outcome: Outcome,
    after: Snapshot<T, Work<T>>,
)
    requires
        before.settles(budget, outcome, after),
        before.schedule.queue.len() == 0,
    ensures
        outcome == Outcome::Quiescent,
        after == before,
{
}

/// However the rest of a tick goes, every actor that was ready stays
/// ready, under the same arbitrator, and a runtime that was in order is in
/// order.
pub proof fn lemma_settles_follows<T: Behavior>(
    before: Snapshot<T, Work<T>>,
    budget: nat,
    outcome: Outcome,
    after: Snapshot<T, Work<T>>,
)
    requires
        before.settles(budget, outcome, after),
    ensures
        after.follows(before),
    decreases budget,
{
    if before.schedule.queue.len() > 0 && budget > 0 {
        let batch = before.schedule.queue;
        if outcome == Outcome::InvariantViolation && before.begin_round().stalls(batch, after) {
            let i = choose|i: int|
                0 <= i < batch.len() && #[trigger] before.begin_round().runs(
                    batch.subrange(0, i),
                    after,
                ) && !after.owns(batch[i].target());
            lemma_runs_follows(before.begin_round(), batch.subrange(0, i), after);
            lemma_follows_chain(before, before.begin_round(), after);
        } else {
            let mid = choose|mid: Snapshot<T, Work<T>>|
                #[trigger] before.begin_round().runs(batch, mid) && mid.settles(
                    (budget - 1) as nat,
                    outcome,
                    after,
                );
            lemma_runs_follows(before.begin_round(), batch, mid);
            lemma_settles_follows(mid, (budget - 1) as nat, outcome, after);
            lemma_follows_chain(before, before.begin_round(), mid);
            lemma_follows_chain(before, mid, after);
        }
    }
}

/// Construction is one-way across a tick: however the tick goes, every
/// actor that was ready before it is ready after it, under the same
/// arbitrator, and a runtime that was in order is in order.
pub proof fn law_ready_actors_stay_ready<T: Behavior>(
    before: Snapshot<T, Work<T>>,
    time: u32,
    outcome: Outcome,
    after: Snapshot<T, Work<T>>,
)
    requires
        before.ticks(time, outcome, after),
    ensures
        after.follows(before),
{
    let (fired, promoted) = choose|fired: Seq<Timer<Work<T>>>, promoted: Schedule<Work<T>>|
        #[trigger] before.schedule.promotes(time, fired, promoted) && before.with_schedule(
            promoted,
        ).settles(before.round_limit as nat, outcome, after);
    let begun = before.with_schedule(promoted);
    lemma_settles_follows(begun, before.round_limit as nat, outcome, after);
    lemma_follows_chain(before, begun, after);
}

/// No deferred work is carried over into a later tick: a tick that ends
/// quiescent leaves the deferred queue empty.
pub proof fn law_quiescent_tick_leaves_no_work<T: Behavior>(
    before: Snapshot<T, Work<T>>,
    time: u32,
    after: Snapshot<T, Work<T>>,
)
    requires
        before.ticks(time, Outcome::Quiescent, after),
    ensures
        after.schedule.queue.len() == 0,
{
    let (fired, promoted) = choose|fired: Seq<Timer<Work<T>>>, promoted: Schedule<Work<T>>|
        #[trigger] before.schedule.promotes(time, fired, promoted) && before.with_schedule(
            promoted,
        ).settles(before.round_limit as nat, Outcome::Quiescent, after);
    lemma_quiescent_is_empty(before.with_schedule(promoted), before.round_limit as nat, after);
}

/// Where the rest of a tick ends quiescent, nothing is left queued.
pub proof fn lemma_quiescent_is_empty<T: Behavior>(
    before: Snapshot<T, Work<T>>,
    budget: nat,
    after: Snapshot<T, Work<T>>,
)
    requires
        before.settles(budget, Outcome::Quiescent, after),
    ensures
        after.schedule.queue.len() == 0,
    decreases budget,
{
    if before.schedule.queue.len() > 0 && budget > 0 {
        let mid = choose|mid: Snapshot<T, Work<T>>|
            #[trigger] before.begin_round().runs(before.schedule.queue, mid) && mid.settles(
                (budget - 1) as nat,
                Outcome::Quiescent,
                after,
            );
        lemma_quiescent_is_empty(mid, (budget - 1) as nat, after);
    }
}

/// A tick ends at the ceiling only when that many rounds have run and
/// work is still queued.
pub proof fn law_ceiling_leaves_work<T: Behavior>(
    before: Snapshot<T, Work<T>>,
    budget: nat,
    after: Snapshot<T, Work<T>>,
)
    requires
        before.settles(budget, Outcome::RoundLimit, after),
    ensures
        after.schedule.queue.len() > 0,
        exists|rounds: nat| rounds == budget && #[trigger] before.drains(rounds, after),
    decreases budget,
{
    if before.schedule.queue.len() > 0 && budget > 0 {
        let mid = choose|mid: Snapshot<T, Work<T>>|
            #[trigger] before.begin_round().runs(before.schedule.queue, mid) && mid.settles(
                (budget - 1) as nat,
                Outcome::RoundLimit,
                after,
            );
        law_ceiling_leaves_work(mid, (budget - 1) as nat, after);
        assert(before.begin_round().runs(before.schedule.queue, mid) && mid.drains(
            (budget - 1) as nat,
            after,
        ));
        assert(before.drains(budget, after));
    } else {
        assert(before.drains(0, after));
    }
}

/// A tick that finds no work queued and no timer due ends quiescent and
/// changes nothing. In particular, a timer does not fire before its tick.
pub proof fn law_idle_tick_changes_nothing<T: Behavior>(
    before: Snapshot<T, Work<T>>,
    time: u32,
    outcome: Outcome,
    after: Snapshot<T, Work<T>>,
)
    requires
        before.idle_at(time),
        before.ticks(time, outcome, after),
    ensures
        outcome == Outcome::Quiescent,
        after == before,
{
    let (fired, promoted) = choose|fired: Seq<Timer<Work<T>>>, promoted: Schedule<Work<T>>|
        #[trigger] before.schedule.promotes(time, fired, promoted) && before.with_schedule(
            promoted,
        ).settles(before.round_limit as nat, outcome, after);
    lemma_nothing_fires(before.schedule, time, fired, promoted);
    assert(before.with_schedule(promoted) == before);
}

/// A handle stays good: whatever a runtime goes through, it still owns
/// the actors that it made.
pub proof fn law_handles_stay_owned<T, W>(
    before: Snapshot<T, W>,
    after: Snapshot<T, W>,
    actor: Actor<T>,
)
    requires
        after.follows(before),
        before.owns(actor),
    ensures
        after.owns(actor),
{
}

/// A new actor waits to be constructed with nothing waiting for it: in a
/// runtime that is in order, the slot that the next handle gets has not
/// been touched, and giving it out keeps the runtime in order.
pub proof fn law_new_actor_is_fresh<T, W>(state: Snapshot<T, W>, actor: Actor<T>)
    requires
        state.sound(),
        actor.slot() == state.schedule.issued,
        actor.owner() == state.schedule.maker,
    ensures
        state.stage(actor) == Stage::<T, W>::fresh(),
        state.with_schedule(state.schedule.issue()).sound(),
        state.with_schedule(state.schedule.issue()).owns(actor),
        state.with_schedule(state.schedule.issue()).stage(actor) == Stage::<T, W>::fresh(),
{
}

} // verus!
