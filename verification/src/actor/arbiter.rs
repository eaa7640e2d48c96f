//! The ownership arbitrator: the one place where actor state lives.
//!
//! Handles are plain values. Whoever wants to read or change an actor's
//! state must go through the arbitrator, and mutable access to the
//! arbitrator is exclusive, so no two mutable views of one actor exist at
//! the same time however many handles name it.

use crate::actor::handle::Actor;
use crate::actor::owner::{new_owner, owner_id, same_owner};
use qcell::{QCellOwner, QCellOwnerID};
use std::collections::VecDeque;
use vstd::prelude::*;

verus! {

/// An actor's state as it is stored.
pub enum Inner<T, W> {
    /// Not constructed yet. The queue buffers what was sent to the actor,
    /// in arrival order.
    Pre(VecDeque<W>),
    /// Constructed.
    Ready(T),
}

/// An actor's lifecycle state.
pub enum Stage<T, W> {
    /// Not constructed yet, with the work that waits for the actor.
    Pre(Seq<W>),
    /// Constructed, with the actor's value.
    Ready(T),
}

impl<T, W> View for Inner<T, W> {
    type V = Stage<T, W>;

    open spec fn view(&self) -> Stage<T, W> {
        match self {
            Inner::Pre(pending) => Stage::Pre(pending@),
            Inner::Ready(value) => Stage::Ready(*value),
        }
    }
}

impl<T, W> Stage<T, W> {
    /// The state of an actor that nothing has been sent to yet.
    pub open spec fn fresh() -> Self {
        Stage::Pre(Seq::empty())
    }

    /// What waits for the actor. Empty once it is constructed.
    pub open spec fn pending(self) -> Seq<W> {
        match self {
            Stage::Pre(pending) => pending,
            Stage::Ready(_) => Seq::empty(),
        }
    }
}

/// The token that mediates all access to actor state.
pub struct Arbitrator<T, W> {
    /// Keeps the identifier this arbitrator's own for as long as it lives.
    token: QCellOwner,
    id: QCellOwnerID,
    slots: Vec<Inner<T, W>>,
}

impl<T, W> Arbitrator<T, W> {
    /// The identifier that handles of this arbitrator carry.
    pub closed spec fn ident(&self) -> QCellOwnerID {
        self.id
    }

    /// The lifecycle state behind every slot. A slot that was never touched
    /// is fresh.
    pub closed spec fn view(&self) -> Map<nat, Stage<T, W>> {
        Map::total(
            |slot: nat|
                if slot < self.slots@.len() {
                    self.slots@[slot as int]@
                } else {
                    Stage::fresh()
                },
        )
    }

    /// Every slot has a state.
    pub broadcast proof fn lemma_total(&self, slot: nat)
        ensures
            #[trigger] self@.dom().contains(slot),
    {
    }

    /// A new arbitrator, with an identifier of its own and no actor
    /// touched yet.
    pub fn new() -> (owner: Self)
        ensures
            owner@ == Map::<nat, Stage<T, W>>::total(|slot: nat| Stage::fresh()),
    {
        let token = new_owner();
        let id = owner_id(&token);
        let owner = Arbitrator { token, id, slots: Vec::new() };
        assert(owner@ =~= Map::<nat, Stage<T, W>>::total(|slot: nat| Stage::fresh()));
        owner
    }

    /// The identifier that handles of this arbitrator carry.
    pub fn id(&self) -> (id: QCellOwnerID)
        ensures
            id == self.ident(),
    {
        self.id
    }

    /// Whether the handle belongs to this arbitrator.
    pub fn owns(&self, actor: &Actor<T>) -> (owned: bool)
        ensures
            owned == (actor.owner() == self.ident()),
    {
        same_owner(actor.maker(), self.id)
    }

    /// Whether the actor is still waiting to be constructed.
    pub fn is_pre(&self, actor: &Actor<T>) -> (pre: bool)
        requires
            actor.owner() == self.ident(),
        ensures
            pre == (self@[actor.slot()] is Pre),
    {
        let index: usize = actor.index();
        if index < self.slots.len() {
            match &self.slots[index] {
                Inner::Pre(_) => true,
                Inner::Ready(_) => false,
            }
        } else {
            true
        }
    }

    /// Makes sure that the slot at `index` is stored.
    fn reach(&mut self, index: usize)
        ensures
            final(self).slots@.len() > index,
            final(self)@ == old(self)@,
            final(self).ident() == old(self).ident(),
    {
        while self.slots.len() <= index
            invariant
                self@ == old(self)@,
                self.ident() == old(self).ident(),
            decreases index + 1 - self.slots.len(),
        {
            let ghost before = *self;
            self.slots.push(Inner::Pre(VecDeque::new()));
            assert(self@ =~= before@);
        }
    }

    /// How much work waits for the actor. Nothing waits for an actor that
    /// is ready.
    pub fn pending(&self, actor: &Actor<T>) -> (waiting: usize)
        requires
            actor.owner() == self.ident(),
        ensures
            waiting == self@[actor.slot()].pending().len(),
    {
        let index: usize = actor.index();
        if index < self.slots.len() {
            match &self.slots[index] {
                Inner::Pre(pending) => pending.len(),
                Inner::Ready(_) => 0,
            }
        } else {
            0
        }
    }

    /// Shared access to the actor's value, if the actor is ready.
    pub fn ro(&self, actor: &Actor<T>) -> (value: Option<&T>)
        requires
            actor.owner() == self.ident(),
        ensures
            match value {
                Some(value) => self@[actor.slot()] == Stage::<T, W>::Ready(*value),
                None => self@[actor.slot()] is Pre,
            },
    {
        let index: usize = actor.index();
        if index < self.slots.len() {
            match &self.slots[index] {
                Inner::Pre(_) => None,
                Inner::Ready(value) => Some(value),
            }
        } else {
            None
        }
    }

    /// Exclusive access to the actor's state.
    pub(crate) fn rw(&mut self, actor: &Actor<T>) -> (inner: &mut Inner<T, W>)
        requires
            actor.owner() == old(self).ident(),
        ensures
            inner@ == old(self)@[actor.slot()],
            final(self).ident() == old(self).ident(),
            final(self)@ == old(self)@.insert(actor.slot(), final(inner)@),
    {
        let index: usize = actor.index();
        self.reach(index);
        &mut self.slots[index]
    }
}

} // verus!
