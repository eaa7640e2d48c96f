//! The runtime: the arbitrator and the core, and the entry point that the
//! host calls once per tick.

use crate::actor::arbiter::{Arbitrator, Inner, Stage};
use crate::actor::handle::Actor;
use crate::actor::scheduler::{Context, Core, Schedule};
use crate::actor::timer::Timer;
use crate::actor::work::{constructed, handled, Behavior, Work};
use qcell::QCellOwnerID;
use std::collections::VecDeque;
use vstd::prelude::*;

verus! {

/// A runtime as the contracts see it: the lifecycle state of every actor
/// and what is scheduled.
pub struct Snapshot<T, W> {
    /// The identifier of the arbitrator.
    pub ident: QCellOwnerID,
    /// The lifecycle state behind every slot.
    pub stages: Map<nat, Stage<T, W>>,
    /// What the core holds.
    pub schedule: Schedule<W>,
    /// The number of rounds that one tick may take.
    pub round_limit: u64,
}

impl<T, W> Snapshot<T, W> {
    /// An empty runtime.
    pub open spec fn empty(maker: QCellOwnerID) -> Self {
        Snapshot {
            ident: maker,
            stages: Map::total(|slot: nat| Stage::fresh()),
            schedule: Schedule::empty(maker),
            round_limit: u64::MAX,
        }
    }

    /// Whether `actor` was made by this runtime: the handle carries the
    /// identifier of the arbitrator, and its slot has been given out.
    pub open spec fn owns(self, actor: Actor<T>) -> bool {
        actor.owner() == self.ident && actor.slot() < self.schedule.issued
    }

    /// Whether the runtime is in order: the core makes actors for the
    /// arbitrator, and no slot that is still to be given out has been
    /// touched.
    pub open spec fn sound(self) -> bool {
        &&& self.schedule.maker == self.ident
        &&& forall|slot: nat|
            slot >= self.schedule.issued ==> #[trigger] self.stages[slot] == Stage::<T, W>::fresh()
    }

    /// The lifecycle state of `actor`.
    pub open spec fn stage(self, actor: Actor<T>) -> Stage<T, W> {
        self.stages[actor.slot()]
    }

    /// The same runtime with another schedule.
    pub open spec fn with_schedule(self, schedule: Schedule<W>) -> Self {
        Snapshot { schedule, ..self }
    }

    /// The same runtime with `actor` ready and holding `value`.
    pub open spec fn with_value(self, actor: Actor<T>, value: T) -> Self {
        Snapshot { stages: self.stages.insert(actor.slot(), Stage::Ready(value)), ..self }
    }

    /// The runtime after `work` has been buffered for `actor`, behind what
    /// already waits for it.
    pub open spec fn buffer(self, actor: Actor<T>, work: W) -> Self {
        Snapshot {
            stages: self.stages.insert(
                actor.slot(),
                Stage::Pre(self.stage(actor).pending().push(work)),
            ),
            ..self
        }
    }

    /// The runtime after each of `works` has been buffered for `actor` in
    /// turn.
    pub open spec fn buffer_all(self, actor: Actor<T>, works: Seq<W>) -> Self
        decreases works.len(),
    {
        if works.len() == 0 {
            self
        } else {
            self.buffer(actor, works[0]).buffer_all(actor, works.drop_first())
        }
    }

    /// The runtime after `actor` has been constructed as `value`: the actor
    /// is ready, and what waited for it has joined the deferred queue, in
    /// arrival order, behind the work that was already queued.
    pub open spec fn promote(self, actor: Actor<T>, value: T) -> Self {
        Snapshot {
            stages: self.stages.insert(actor.slot(), Stage::Ready(value)),
            schedule: self.schedule.flush(self.stage(actor).pending()),
            ..self
        }
    }

    /// The runtime after a construction attempt on `actor` has ended in
    /// `outcome`.
    pub open spec fn settle(self, actor: Actor<T>, outcome: Option<T>) -> Self {
        match outcome {
            None => self,
            Some(value) => self.promote(actor, value),
        }
    }

    /// The runtime after `actor` has been asked to construct itself, where
    /// the constructor, if it ran, left the schedule `between` and returned
    /// `outcome`.
    pub open spec fn apply_pre(
        self,
        actor: Actor<T>,
        between: Schedule<W>,
        outcome: Option<T>,
    ) -> Self {
        match self.stage(actor) {
            Stage::Ready(_) => self,
            Stage::Pre(_) => self.with_schedule(between).settle(actor, outcome),
        }
    }

    /// The runtime after `work` has been sent to `actor`, where the
    /// handler, if it ran, left the schedule `between` and the actor's
    /// value `value`.
    pub open spec fn apply(self, actor: Actor<T>, work: W, between: Schedule<W>, value: T) -> Self {
        match self.stage(actor) {
            Stage::Ready(_) => self.with_schedule(between).with_value(actor, value),
            Stage::Pre(_) => self.buffer(actor, work),
        }
    }

    /// The runtime at the start of a round: the queued work has been taken.
    pub open spec fn begin_round(self) -> Self {
        self.with_schedule(self.schedule.begin_round())
    }

    /// Whether a tick at `time` finds nothing to do.
    pub open spec fn idle_at(self, time: u32) -> bool {
        self.schedule.queue.len() == 0 && self.schedule.nothing_due(time)
    }

    /// Whether this runtime can have come out of `before`: it has the same
    /// arbitrator and the same ceiling on rounds, every actor that was
    /// made is made, every actor that was ready is ready, and it is in
    /// order if `before` was.
    pub open spec fn follows(self, before: Self) -> bool {
        &&& self.ident == before.ident
        &&& self.round_limit == before.round_limit
        &&& self.schedule.maker == before.schedule.maker
        &&& self.schedule.issued >= before.schedule.issued
        &&& forall|slot: nat| (#[trigger] before.stages[slot]) is Ready ==> self.stages[slot] is Ready
        &&& before.sound() ==> self.sound()
    }
}

impl<T: Behavior> Snapshot<T, Work<T>> {
    /// Whether `after` can be this runtime once the handler has run on
    /// `message` for `actor`, whose value was `value`: the handler has left
    /// some value and some schedule that its relation allows, and `after`
    /// holds them.
    pub open spec fn handles(self, actor: Actor<T>, value: T, message: T::Message, after: Self) -> bool {
        exists|next: T, left: Schedule<Work<T>>|
            #[trigger] handled(value, message, actor, self.schedule, next, left) && after
                == self.with_schedule(left.reclaimed(self.schedule)).with_value(actor, next)
    }

    /// Whether `after` can be this runtime once the constructor has run on
    /// `seed` for `actor`: the constructor has returned something and left
    /// some schedule that its relation allows, and `after` is settled on
    /// them.
    pub open spec fn attempts(self, actor: Actor<T>, seed: T::Seed, after: Self) -> bool {
        exists|made: Option<T>, left: Schedule<Work<T>>|
            #[trigger] constructed(seed, actor, self.schedule, made, left) && after
                == self.with_schedule(left.reclaimed(self.schedule)).settle(actor, made)
    }

    /// Whether `after` can be this runtime once `work` has been executed.
    ///
    /// The work is addressed to an actor of this runtime. A message to an
    /// actor that is not constructed is buffered, and a construction
    /// attempt on an actor that is ready changes nothing. Otherwise the
    /// handler or the constructor runs on the actor's value and the
    /// schedule as they stand, and `after` holds what it left.
    pub open spec fn executes(self, work: Work<T>, after: Self) -> bool {
        &&& self.owns(work.target())
        &&& match work {
            Work::Apply(actor, message) => match self.stage(actor) {
                Stage::Pre(_) => after == self.buffer(actor, work),
                Stage::Ready(value) => self.handles(actor, value, message, after),
            },
            Work::ApplyPre(actor, seed) => match self.stage(actor) {
                Stage::Ready(_) => after == self,
                Stage::Pre(_) => self.attempts(actor, seed, after),
            },
        }
    }

    /// A message that a ready actor has handled has been executed.
    pub proof fn lemma_handled(
        self,
        actor: Actor<T>,
        value: T,
        message: T::Message,
        next: T,
        left: Schedule<Work<T>>,
    )
        requires
            self.owns(actor),
            self.stage(actor) == Stage::<T, Work<T>>::Ready(value),
            T::receives(value, message, actor, self.schedule, next, left),
        ensures
            self.executes(
                Work::Apply(actor, message),
                self.with_schedule(left.reclaimed(self.schedule)).with_value(actor, next),
            ),
    {
        assert(handled(value, message, actor, self.schedule, next, left));
    }

    /// A construction attempt that has been concluded has been executed.
    pub proof fn lemma_attempted(
        self,
        actor: Actor<T>,
        seed: T::Seed,
        made: Option<T>,
        left: Schedule<Work<T>>,
    )
        requires
            self.owns(actor),
            self.stage(actor) is Pre,
            T::constructs(seed, actor, self.schedule, made, left),
        ensures
            self.executes(
                Work::ApplyPre(actor, seed),
                self.with_schedule(left.reclaimed(self.schedule)).settle(actor, made),
            ),
    {
        assert(constructed(seed, actor, self.schedule, made, left));
    }

    /// Whether `after` can be this runtime once the units of work of
    /// `batch` have been executed one after the other, first to last.
    pub open spec fn runs(self, batch: Seq<Work<T>>, after: Self) -> bool
        decreases batch.len(),
    {
        if batch.len() == 0 {
            after == self
        } else {
            exists|mid: Self|
                #[trigger] self.executes(batch.first(), mid) && mid.runs(batch.drop_first(), after)
        }
    }

    /// A batch that has run, and one more unit of work executed after it,
    /// is the longer batch run.
    pub proof fn lemma_runs_push(self, batch: Seq<Work<T>>, mid: Self, work: Work<T>, after: Self)
        requires
            self.runs(batch, mid),
            mid.executes(work, after),
        ensures
            self.runs(batch.push(work), after),
        decreases batch.len(),
    {
        let longer = batch.push(work);
        if batch.len() == 0 {
            assert(longer.first() == work);
            assert(longer.drop_first() =~= Seq::<Work<T>>::empty());
            assert(self.executes(longer.first(), after) && after.runs(longer.drop_first(), after));
        } else {
            let next = choose|next: Self|
                #[trigger] self.executes(batch.first(), next) && next.runs(batch.drop_first(), mid);
            next.lemma_runs_push(batch.drop_first(), mid, work, after);
            assert(longer.drop_first() =~= batch.drop_first().push(work));
            assert(longer.first() == batch.first());
            assert(self.executes(longer.first(), next) && next.runs(longer.drop_first(), after));
        }
    }

    /// Whether `after` can be this runtime after `rounds` rounds, each of
    /// which finds work queued, takes the deferred queue as it stands and
    /// runs it first to last.
    pub open spec fn drains(self, rounds: nat, after: Self) -> bool
        decreases rounds,
    {
        if rounds == 0 {
            after == self
        } else {
            &&& self.schedule.queue.len() > 0
            &&& exists|mid: Self|
                #[trigger] self.begin_round().runs(self.schedule.queue, mid) && mid.drains(
                    (rounds - 1) as nat,
                    after,
                )
        }
    }

    /// Rounds that have run, and one more round run after them, are the
    /// longer run of rounds.
    pub proof fn lemma_drains_more(self, rounds: nat, mid: Self, after: Self)
        requires
            self.drains(rounds, mid),
            mid.schedule.queue.len() > 0,
            mid.begin_round().runs(mid.schedule.queue, after),
        ensures
            self.drains(rounds + 1, after),
        decreases rounds,
    {
        if rounds == 0 {
            assert(self.begin_round().runs(self.schedule.queue, after) && after.drains(0, after));
        } else {
            let next = choose|next: Self|
                #[trigger] self.begin_round().runs(self.schedule.queue, next) && next.drains(
                    (rounds - 1) as nat,
                    mid,
                );
            next.lemma_drains_more((rounds - 1) as nat, mid, after);
            assert(self.begin_round().runs(self.schedule.queue, next) && next.drains(
                ((rounds + 1) - 1) as nat,
                after,
            ));
        }
    }

    /// Whether `after` can be this runtime after a round on `batch` that
    /// was abandoned: the round ran the work up to a unit that is not
    /// addressed to an actor of this runtime.
    pub open spec fn stalls(self, batch: Seq<Work<T>>, after: Self) -> bool {
        exists|i: int|
            0 <= i < batch.len() && #[trigger] self.runs(batch.subrange(0, i), after)
                && !after.owns(batch[i].target())
    }

    /// Whether the rounds of a tick that may take `budget` more rounds can
    /// take this runtime to `after` and end in `outcome`.
    ///
    /// With nothing queued the tick is quiescent, here and now. With work
    /// queued and no round left it ends at the ceiling, here and now.
    /// Otherwise a round starts: either it stalls and the tick is
    /// abandoned where the round stopped, or it runs the queue first to
    /// last and the tick goes on from what it left.
    pub open spec fn settles(self, budget: nat, outcome: Outcome, after: Self) -> bool
        decreases budget,
    {
        if self.schedule.queue.len() == 0 {
            outcome == Outcome::Quiescent && after == self
        } else if budget == 0 {
            outcome == Outcome::RoundLimit && after == self
        } else {
            ||| outcome == Outcome::InvariantViolation && self.begin_round().stalls(
                self.schedule.queue,
                after,
            )
            ||| exists|mid: Self|
                #[trigger] self.begin_round().runs(self.schedule.queue, mid) && mid.settles(
                    (budget - 1) as nat,
                    outcome,
                    after,
                )
        }
    }

    /// Rounds that have run, and the rest of the tick after them, are the
    /// whole of the tick.
    pub proof fn lemma_settles(
        self,
        rounds: nat,
        mid: Self,
        budget: nat,
        outcome: Outcome,
        after: Self,
    )
        requires
            self.drains(rounds, mid),
            mid.settles(budget, outcome, after),
        ensures
            self.settles(rounds + budget, outcome, after),
        decreases rounds,
    {
        if rounds > 0 {
            let next = choose|next: Self|
                #[trigger] self.begin_round().runs(self.schedule.queue, next) && next.drains(
                    (rounds - 1) as nat,
                    mid,
                );
            next.lemma_settles((rounds - 1) as nat, mid, budget, outcome, after);
            assert(self.begin_round().runs(self.schedule.queue, next) && next.settles(
                ((rounds + budget) - 1) as nat,
                outcome,
                after,
            ));
        }
    }

    /// Whether a tick at `time` can take this runtime to `after` and end
    /// in `outcome`.
    ///
    /// The timers that are due are promoted first, earliest first. Then
    /// rounds follow for as long as work is queued and the ceiling allows.
    ///
    /// What a given tick does follows by unfolding [`Snapshot::settles`]
    /// round by round and [`Snapshot::runs`] unit by unit: each unit of work
    /// meets the relation that its actor's [`Behavior`] states.
    pub open spec fn ticks(self, time: u32, outcome: Outcome, after: Self) -> bool {
        exists|fired: Seq<Timer<Work<T>>>, promoted: Schedule<Work<T>>|
            #[trigger] self.schedule.promotes(time, fired, promoted) && self.with_schedule(
                promoted,
            ).settles(self.round_limit as nat, outcome, after)
    }
}

/// How a tick ended.
#[derive(Clone, Copy, Debug, PartialEq, Eq, Structural)]
pub enum Outcome {
    /// All work of the tick ran and the deferred queue is empty.
    Quiescent,
    /// The ceiling on rounds was reached while work was still queued.
    RoundLimit,
    /// A unit of work was addressed through a handle that this runtime did
    /// not make. The tick was abandoned.
    InvariantViolation,
}

/// One arbitrator together with the core that schedules for it.
pub struct Runtime<T: Behavior> {
    pub owner: Arbitrator<T, Work<T>>,
    pub core: Core<Work<T>>,
    /// The number of rounds that one tick may take.
    pub round_limit: u64,
}

impl<T: Behavior> View for Runtime<T> {
    type V = Snapshot<T, Work<T>>;

    open spec fn view(&self) -> Snapshot<T, Work<T>> {
        Snapshot {
            ident: self.owner.ident(),
            stages: self.owner@,
            schedule: self.core@,
            round_limit: self.round_limit,
        }
    }
}

impl<T: Behavior> std::ops::Deref for Runtime<T> {
    type Target = Core<Work<T>>;

    fn deref(&self) -> (core: &Core<Work<T>>)
        ensures
            *core == self.core,
    {
        &self.core
    }
}

impl<T: Behavior> Default for Runtime<T> {
    fn default() -> (runtime: Self)
        ensures
            runtime@ == Snapshot::<T, Work<T>>::empty(runtime@.ident),
            runtime@.sound(),
    {
        Runtime::new()
    }
}

impl<T: Behavior> Runtime<T> {
    /// An empty runtime with an arbitrator of its own.
    pub fn new() -> (runtime: Self)
        ensures
            runtime@ == Snapshot::<T, Work<T>>::empty(runtime@.ident),
            runtime@.sound(),
    {
        let owner = Arbitrator::new();
        let core = Core::new(owner.id());
        Runtime { owner, core, round_limit: u64::MAX }
    }

    /// Whether the handle was made by this runtime.
    pub fn owns(&self, actor: &Actor<T>) -> (owned: bool)
        ensures
            owned == self@.owns(*actor),
    {
        self.owner.owns(actor) && actor.index() < self.core.issued()
    }

    /// A handle to a new actor, which waits to be constructed and has
    /// nothing waiting for it. See [`Core::new_actor`].
    pub fn new_actor(&mut self) -> (actor: Actor<T>)
        requires
            old(self).core.has_room(),
        ensures
            actor.slot() == old(self)@.schedule.issued,
            actor.owner() == old(self)@.schedule.maker,
            final(self)@ == old(self)@.with_schedule(old(self)@.schedule.issue()),
            final(self)@.follows(old(self)@),
            old(self)@.sound() ==> final(self)@.owns(actor) && final(self)@.stage(actor)
                == Stage::<T, Work<T>>::fresh(),
    {
        broadcast use Arbitrator::lemma_total;

        self.core.new_actor()
    }

    /// Makes an actor and defers its construction from `seed`. See
    /// [`Core::spawn`].
    pub fn spawn(&mut self, seed: T::Seed) -> (actor: Actor<T>)
        requires
            old(self).core.has_room(),
        ensures
            actor.slot() == old(self)@.schedule.issued,
            actor.owner() == old(self)@.schedule.maker,
            final(self)@ == old(self)@.with_schedule(
                old(self)@.schedule.issue().defer(Work::ApplyPre(actor, seed)),
            ),
            final(self)@.follows(old(self)@),
            old(self)@.sound() ==> final(self)@.owns(actor) && final(self)@.stage(actor)
                == Stage::<T, Work<T>>::fresh(),
    {
        broadcast use Arbitrator::lemma_total;

        self.core.spawn(seed)
    }

    /// Schedules `work` to run later in the current tick. See [`Core::defer`].
    pub fn defer(&mut self, work: Work<T>)
        ensures
            final(self)@ == old(self)@.with_schedule(old(self)@.schedule.defer(work)),
            final(self)@.follows(old(self)@),
    {
        self.core.defer(work);
    }

    /// Schedules `work` to run once tick `time` is reached or passed. See
    /// [`Core::timer`].
    pub fn timer(&mut self, time: u32, work: Work<T>)
        ensures
            final(self)@ == old(self)@.with_schedule(old(self)@.schedule.timer(time, work)),
            final(self)@.follows(old(self)@),
    {
        self.core.timer(time, work);
    }

    /// Runs one unit of work, unless it is addressed through a handle that
    /// this runtime did not make.
    pub fn execute(&mut self, work: Work<T>) -> (done: bool)
        ensures
            done == old(self)@.owns(work.target()),
            done ==> old(self)@.executes(work, final(self)@),
            !done ==> *final(self) == *old(self),
            final(self)@.follows(old(self)@),
    {
        match work {
            Work::Apply(actor, message) => {
                if self.owns(&actor) {
                    actor.apply(self, message);
                    true
                } else {
                    false
                }
            },
            Work::ApplyPre(actor, seed) => {
                if self.owns(&actor) {
                    actor.apply_pre(self, seed);
                    true
                } else {
                    false
                }
            },
        }
    }

    /// Runs every unit of work of `batch`, in order.
    ///
    /// Work that the batch schedules is queued. The run stops early at a
    /// unit of work that cannot be run.
    pub fn run_round(&mut self, batch: VecDeque<Work<T>>) -> (done: bool)
        ensures
            done ==> old(self)@.runs(batch@, final(self)@),
            !done ==> old(self)@.stalls(batch@, final(self)@),
            batch@.len() == 0 ==> done && *final(self) == *old(self),
            final(self)@.follows(old(self)@),
    {
        let mut rest = batch;
        assert(batch@.subrange(0, 0) =~= Seq::<Work<T>>::empty());
        loop
            invariant
                self@.follows(old(self)@),
                rest@.len() <= batch@.len(),
                rest@ == batch@.subrange(batch@.len() - rest@.len(), batch@.len() as int),
                rest@.len() == batch@.len() ==> *self == *old(self),
                old(self)@.runs(batch@.subrange(0, batch@.len() - rest@.len()), self@),
            decreases rest@.len(),
        {
            let ghost before = self@;
            let ghost i = batch@.len() - rest@.len();
            match rest.pop_front() {
                None => {
                    assert(batch@.subrange(0, batch@.len() as int) =~= batch@);
                    return true;
                },
                Some(work) => {
                    assert(work == batch@[i]);
                    assert(rest@ =~= batch@.subrange(
                        batch@.len() - rest@.len(),
                        batch@.len() as int,
                    ));
                    if !self.execute(work) {
                        return false;
                    }
                    proof {
                        let done = batch@.subrange(0, i + 1);
                        assert(done =~= batch@.subrange(0, i).push(work));
                        old(self)@.lemma_runs_push(batch@.subrange(0, i), before, work, self@);
                        lemma_follows_chain(old(self)@, before, self@);
                    }
                },
            }
        }
    }

    /// Runs one round: takes the deferred queue as it stands and runs it,
    /// first to last. What the round schedules waits for the next round.
    pub fn round(&mut self) -> (done: bool)
        ensures
            done ==> old(self)@.begin_round().runs(old(self)@.schedule.queue, final(self)@),
            !done ==> old(self)@.begin_round().stalls(old(self)@.schedule.queue, final(self)@),
            final(self)@.follows(old(self)@),
    {
        let batch = self.core.take_round();
        let ghost begun = self@;
        let done = self.run_round(batch);
        proof {
            lemma_follows_chain(old(self)@, begun, self@);
        }
        done
    }

    /// Runs one tick.
    ///
    /// First every timer that is due at `time` is moved onto the deferred
    /// queue, earliest first. Then the queue is drained round by round:
    /// each round runs the work that was queued when it began, in order,
    /// and what that work defers waits for the next round of the same call.
    /// The call ends when a round leaves the queue empty, when
    /// `round_limit` rounds have run, or at a unit of work that cannot be
    /// run.
    pub fn run(&mut self, time: u32) -> (outcome: Outcome)
        ensures
            old(self)@.ticks(time, outcome, final(self)@),
            old(self)@.idle_at(time) ==> outcome == Outcome::Quiescent && final(self)@ == old(
                self,
            )@,
            final(self)@.follows(old(self)@),
    {
        let fired = self.core.promote(time);
        let ghost promoted = self@;
        proof {
            if old(self)@.idle_at(time) {
                lemma_nothing_fires(old(self).core@, time, fired@, self.core@);
            }
            assert(promoted == old(self)@.with_schedule(self.core@));
        }
        let mut rounds: u64 = 0;
        while self.core.queue_len() > 0
            invariant
                self@.follows(old(self)@),
                rounds <= self.round_limit,
                old(self)@.idle_at(time) ==> self@ == old(self)@,
                old(self)@.schedule.promotes(time, fired@, promoted.schedule),
                promoted == old(self)@.with_schedule(promoted.schedule),
                promoted.drains(rounds as nat, self@),
            decreases self.round_limit - rounds,
        {
            let ghost last = self@;
            if rounds == self.round_limit {
                proof {
                    promoted.lemma_settles(rounds as nat, last, 0, Outcome::RoundLimit, last);
                }
                return Outcome::RoundLimit;
            }
            if !self.round() {
                proof {
                    assert(last.settles(
                        (self.round_limit - rounds) as nat,
                        Outcome::InvariantViolation,
                        self@,
                    ));
                    promoted.lemma_settles(
                        rounds as nat,
                        last,
                        (self.round_limit - rounds) as nat,
                        Outcome::InvariantViolation,
                        self@,
                    );
                }
                return Outcome::InvariantViolation;
            }
            rounds = rounds + 1;
            proof {
                promoted.lemma_drains_more((rounds - 1) as nat, last, self@);
                lemma_follows_chain(old(self)@, last, self@);
            }
        }
        proof {
            promoted.lemma_settles(
                rounds as nat,
                self@,
                (self.round_limit - rounds) as nat,
                Outcome::Quiescent,
                self@,
            );
        }
        Outcome::Quiescent
    }
}

/// A runtime follows itself, and what follows a runtime that follows
/// another follows that other.
pub proof fn lemma_follows_chain<T, W>(
    first: Snapshot<T, W>,
    second: Snapshot<T, W>,
    third: Snapshot<T, W>,
)
    requires
        second.follows(first),
        third.follows(second),
    ensures
        first.follows(first),
        third.follows(first),
{
    assert forall|slot: nat| (#[trigger] first.stages[slot]) is Ready implies third.stages[slot]
        is Ready by {
        assert(second.stages[slot] is Ready);
    }
}

/// Where no timer is due, promotion changes nothing.
pub proof fn lemma_nothing_fires<W>(
    before: Schedule<W>,
    time: u32,
    fired: Seq<Timer<W>>,
    after: Schedule<W>,
)
    requires
        before.promotes(time, fired, after),
        before.nothing_due(time),
    ensures
        fired.len() == 0,
        after == before,
{
    broadcast use vstd::seq_lib::group_to_multiset_ensures;

    if fired.len() > 0 {
        assert(fired.contains(fired[0]));
        assert(fired.to_multiset().count(fired[0]) > 0);
        assert(before.timers.count(fired[0]) > 0);
        assert(fired[0].is_due(time));
    }
    assert(fired =~= Seq::<Timer<W>>::empty());
    assert(fired.to_multiset() =~= vstd::multiset::Multiset::<Timer<W>>::empty());
    assert(after.timers =~= before.timers);
    assert(after.queue =~= before.queue);
}

impl<T: Behavior> Actor<T> {
    /// A handle to a new actor of `core`.
    pub fn new(core: &mut Core<Work<T>>) -> (actor: Self)
        requires
            old(core).has_room(),
        ensures
            actor.slot() == old(core)@.issued,
            actor.owner() == old(core)@.maker,
            final(core)@ == old(core)@.issue(),
    {
        core.new_actor()
    }

    /// Schedules `work` to run later in the current tick. See [`Core::defer`].
    pub fn defer(&self, core: &mut Core<Work<T>>, work: Work<T>)
        ensures
            final(core)@ == old(core)@.defer(work),
    {
        core.defer(work);
    }

    /// Schedules `work` to run once tick `time` is reached or passed. See
    /// [`Core::timer`].
    pub fn timer(&self, core: &mut Core<Work<T>>, time: u32, work: Work<T>)
        ensures
            final(core)@ == old(core)@.timer(time, work),
    {
        core.timer(time, work);
    }

    /// Defers the delivery of `message` to the actor.
    pub fn call(&self, core: &mut Core<Work<T>>, message: T::Message)
        ensures
            final(core)@ == old(core)@.defer(Work::Apply(*self, message)),
    {
        core.defer(Work::Apply(*self, message));
    }

    /// Defers an attempt to construct the actor from `seed`.
    pub fn call_pre(&self, core: &mut Core<Work<T>>, seed: T::Seed)
        ensures
            final(core)@ == old(core)@.defer(Work::ApplyPre(*self, seed)),
    {
        core.defer(Work::ApplyPre(*self, seed));
    }

    /// Sets the delivery of `message` to the actor for tick `time`.
    pub fn call_at(&self, core: &mut Core<Work<T>>, time: u32, message: T::Message)
        ensures
            final(core)@ == old(core)@.timer(time, Work::Apply(*self, message)),
    {
        core.timer(time, Work::Apply(*self, message));
    }

    /// Sets an attempt to construct the actor from `seed` for tick `time`.
    pub fn call_pre_at(&self, core: &mut Core<Work<T>>, time: u32, seed: T::Seed)
        ensures
            final(core)@ == old(core)@.timer(time, Work::ApplyPre(*self, seed)),
    {
        core.timer(time, Work::ApplyPre(*self, seed));
    }

    /// Whether the actor is still waiting to be constructed.
    pub fn is_pre(&self, owner: &Arbitrator<T, Work<T>>) -> (pre: bool)
        requires
            self.owner() == owner.ident(),
        ensures
            pre == (owner@[self.slot()] is Pre),
    {
        owner.is_pre(self)
    }

    /// Exclusive access to the actor's value, if the actor is ready.
    pub fn borrow_ready<'a>(&'a self, owner: &'a mut Arbitrator<T, Work<T>>) -> (value: Option<
        &'a mut T,
    >)
        requires
            self.owner() == old(owner).ident(),
        ensures
            final(owner).ident() == old(owner).ident(),
            value is Some ==> old(owner)@[self.slot()] == Stage::<T, Work<T>>::Ready(
                *value.unwrap(),
            ),
            value is Some ==> final(owner)@ == old(owner)@.insert(
                self.slot(),
                Stage::Ready(*final(value.unwrap())),
            ),
            value is None ==> old(owner)@[self.slot()] is Pre,
            value is None ==> final(owner)@ == old(owner)@,
    {
        broadcast use Arbitrator::lemma_total;

        let inner = owner.rw(self);
        match inner {
            Inner::Ready(value) => Some(value),
            Inner::Pre(_) => {
                proof {
                    assert(old(owner)@.insert(self.slot(), old(owner)@[self.slot()]) =~= old(
                        owner,
                    )@);
                }
                None
            },
        }
    }

    /// Exclusive access to what waits for the actor, unless the actor is
    /// ready.
    pub(crate) fn borrow_pre<'a>(&'a self, owner: &'a mut Arbitrator<T, Work<T>>) -> (pending: Option<
        &'a mut VecDeque<Work<T>>,
    >)
        requires
            self.owner() == old(owner).ident(),
        ensures
            final(owner).ident() == old(owner).ident(),
            pending is Some ==> old(owner)@[self.slot()] == Stage::<T, Work<T>>::Pre(
                pending.unwrap()@,
            ),
            pending is Some ==> final(owner)@ == old(owner)@.insert(
                self.slot(),
                Stage::Pre(final(pending.unwrap())@),
            ),
            pending is None ==> old(owner)@[self.slot()] is Ready,
            pending is None ==> final(owner)@ == old(owner)@,
    {
        broadcast use Arbitrator::lemma_total;

        let inner = owner.rw(self);
        match inner {
            Inner::Pre(pending) => Some(pending),
            Inner::Ready(_) => {
                proof {
                    assert(old(owner)@.insert(self.slot(), old(owner)@[self.slot()]) =~= old(
                        owner,
                    )@);
                }
                None
            },
        }
    }

    /// Concludes a construction attempt on an actor that is not constructed
    /// yet.
    ///
    /// With no value nothing changes. With a value the actor becomes ready
    /// and what was buffered for it joins the deferred queue, in arrival
    /// order, behind the work that is already queued.
    pub fn settle(&self, runtime: &mut Runtime<T>, outcome: Option<T>)
        requires
            old(runtime)@.owns(*self),
            old(runtime)@.stage(*self) is Pre,
        ensures
            final(runtime)@ == old(runtime)@.settle(*self, outcome),
            final(runtime)@.follows(old(runtime)@),
            outcome is None ==> *final(runtime) == *old(runtime),
    {
        broadcast use Arbitrator::lemma_total;

        match outcome {
            None => {},
            Some(value) => {
                let inner = runtime.owner.rw(self);
                let mut held = Inner::Ready(value);
                core::mem::swap(inner, &mut held);
                match held {
                    Inner::Pre(mut pending) => {
                        runtime.core.flush(&mut pending);
                    },
                    Inner::Ready(_) => {
                        assert(false);
                    },
                }
            },
        }
    }

    /// Attempts to construct the actor from `seed`.
    ///
    /// Does nothing if the actor is ready. Otherwise runs the constructor
    /// and settles on what it returns.
    pub fn apply_pre(&self, runtime: &mut Runtime<T>, seed: T::Seed)
        requires
            old(runtime)@.owns(*self),
        ensures
            old(runtime)@.executes(Work::ApplyPre(*self, seed), final(runtime)@),
            old(runtime)@.stage(*self) is Ready ==> *final(runtime) == *old(runtime),
            final(runtime)@.follows(old(runtime)@),
    {
        broadcast use Arbitrator::lemma_total;

        if self.is_pre(&runtime.owner) {
            let issued = runtime.core.issued();
            let maker = runtime.core.maker();
            let context = Context { core: &mut runtime.core, actor: self };
            let outcome = T::init(seed, context);
            let ghost left = runtime.core@;
            runtime.core.reclaim(Ghost(old(runtime).core@), issued, maker);
            let ghost between = runtime@;
            assert(T::constructs(seed, *self, old(runtime)@.schedule, outcome, left));
            assert(between == old(runtime)@.with_schedule(left.reclaimed(old(runtime)@.schedule)));
            assert(between.follows(old(runtime)@));
            self.settle(runtime, outcome);
            proof {
                lemma_follows_chain(old(runtime)@, between, runtime@);
                assert(old(runtime)@.stage(*self) is Pre);
                assert(runtime@ == old(runtime)@.with_schedule(
                    left.reclaimed(old(runtime)@.schedule),
                ).settle(*self, outcome));
                old(runtime)@.lemma_attempted(*self, seed, outcome, left);
            }
        } else {
            assert(old(runtime)@.stage(*self) is Ready);
        }
    }

    /// Sends `message` to the actor.
    ///
    /// A ready actor handles it at once. For an actor that is not
    /// constructed yet the message is buffered, behind what was sent to it
    /// before, until the actor is ready.
    pub fn apply(&self, runtime: &mut Runtime<T>, message: T::Message)
        requires
            old(runtime)@.owns(*self),
        ensures
            old(runtime)@.executes(Work::Apply(*self, message), final(runtime)@),
            old(runtime)@.stage(*self) is Pre ==> final(runtime).core == old(runtime).core,
            final(runtime)@.follows(old(runtime)@),
    {
        broadcast use Arbitrator::lemma_total;

        let issued = runtime.core.issued();
        let maker = runtime.core.maker();
        if let Some(value) = self.borrow_ready(&mut runtime.owner) {
            let ghost before = *value;
            let context = Context { core: &mut runtime.core, actor: self };
            value.receive(message, context);
            let ghost left = runtime.core@;
            runtime.core.reclaim(Ghost(old(runtime).core@), issued, maker);
            assert(T::receives(before, message, *self, old(runtime)@.schedule, *value, left));
            assert(old(runtime)@.stage(*self) == Stage::<T, Work<T>>::Ready(before));
            assert(runtime@ == old(runtime)@.with_schedule(
                left.reclaimed(old(runtime)@.schedule),
            ).with_value(*self, *value));
            proof {
                old(runtime)@.lemma_handled(*self, before, message, *value, left);
            }
        } else if let Some(pending) = self.borrow_pre(&mut runtime.owner) {
            pending.push_back(Work::Apply(*self, message));
            assert(old(runtime)@.stage(*self) is Pre);
            assert(runtime@ == old(runtime)@.buffer(*self, Work::Apply(*self, message)));
            assert(old(runtime)@.executes(Work::Apply(*self, message), runtime@));
        } else {
            assert(false);
        }
    }
}

} // verus!
