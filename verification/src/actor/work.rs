//! Units of work and the interface through which an actor runs them.

use crate::actor::handle::Actor;
use crate::actor::scheduler::{Context, Schedule};
use vstd::prelude::*;

verus! {

/// What an actor is made of and how it reacts.
///
/// The kernel decides *when* a constructor or a message handler runs; this
/// trait says *what* runs. An implementation says what its two methods do
/// by the two relations that stand beside them, and the kernel's contracts
/// hand that on: what a tick does is stated in terms of them. Left as they
/// are, the relations say nothing, and the kernel's own guarantees hold
/// whatever the methods do.
pub trait Behavior: Sized {
    /// What is sent to a constructed actor.
    type Message;

    /// What a construction attempt starts from.
    type Seed;

    /// Whether the constructor, handed `seed` and a context that names
    /// `actor` and holds a core with `core`, can return `made` and leave
    /// the core with `left`.
    open spec fn constructs(
        seed: Self::Seed,
        actor: Actor<Self>,
        core: Schedule<Work<Self>>,
        made: Option<Self>,
        left: Schedule<Work<Self>>,
    ) -> bool {
        true
    }

    /// Whether the handler, handed the actor's value `before`, `message`
    /// and a context that names `actor` and holds a core with `core`, can
    /// leave the value as `after` and the core with `left`.
    open spec fn receives(
        before: Self,
        message: Self::Message,
        actor: Actor<Self>,
        core: Schedule<Work<Self>>,
        after: Self,
        left: Schedule<Work<Self>>,
    ) -> bool {
        true
    }

    /// Attempts to construct the actor. `None` means that it is not ready
    /// yet; retrying, usually from a timer, is up to this method.
    fn init(seed: Self::Seed, context: Context<'_, Self, Work<Self>>) -> (made: Option<Self>)
        ensures
            Self::constructs(
                seed,
                *context.actor,
                old(context.core)@,
                made,
                final(context.core)@,
            ),
    ;

    /// Handles one message.
    fn receive(&mut self, message: Self::Message, context: Context<'_, Self, Work<Self>>)
        ensures
            Self::receives(
                *old(self),
                message,
                *context.actor,
                old(context.core)@,
                *final(self),
                final(context.core)@,
            ),
    ;
}

/// Whether the constructor of `T` can take the schedule from `core` to
/// `left` and return `made`: [`Behavior::constructs`], for use where `T`
/// is not known.
pub open spec fn constructed<T: Behavior>(
    seed: T::Seed,
    actor: Actor<T>,
    core: Schedule<Work<T>>,
    made: Option<T>,
    left: Schedule<Work<T>>,
) -> bool {
    T::constructs(seed, actor, core, made, left)
}

/// Whether the handler of `T` can take the actor's value from `before` to
/// `after` and the schedule from `core` to `left`: [`Behavior::receives`],
/// for use where `T` is not known.
pub open spec fn handled<T: Behavior>(
    before: T,
    message: T::Message,
    actor: Actor<T>,
    core: Schedule<Work<T>>,
    after: T,
    left: Schedule<Work<T>>,
) -> bool {
    T::receives(before, message, actor, core, after, left)
}

/// A one-shot unit of work, as it waits in a queue or in the timer heap.
pub enum Work<T: Behavior> {
    /// Deliver a message to the actor, now or once it is constructed.
    Apply(Actor<T>, T::Message),
    /// Attempt to construct the actor.
    ApplyPre(Actor<T>, T::Seed),
}

impl<T: Behavior> Work<T> {
    /// The actor that the work is addressed to.
    pub open spec fn target(self) -> Actor<T> {
        match self {
            Work::Apply(actor, _) => actor,
            Work::ApplyPre(actor, _) => actor,
        }
    }
}

} // verus!
