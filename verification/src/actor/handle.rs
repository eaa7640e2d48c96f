//! Actor handles: cheap, copyable references to one actor's state.

use crate::actor::owner::same_owner;
use qcell::QCellOwnerID;
use std::marker::PhantomData;
use vstd::prelude::*;

verus! {

/// A reference to one actor. Copies of a handle name the same actor.
pub struct Actor<T> {
    index: usize,
    maker: QCellOwnerID,
    kind: PhantomData<T>,
}

impl<T> Clone for Actor<T> {
    fn clone(&self) -> (other: Self)
        ensures
            other == *self,
    {
        Actor { index: self.index, maker: self.maker, kind: PhantomData }
    }
}

impl<T> Copy for Actor<T> {

}

impl<T> PartialEq for Actor<T> {
    fn eq(&self, other: &Self) -> (equal: bool) {
        self.index == other.index && same_owner(self.maker, other.maker)
    }
}

impl<T> Eq for Actor<T> {

}

impl<T> vstd::std_specs::cmp::PartialEqSpecImpl for Actor<T> {
    open spec fn obeys_eq_spec() -> bool {
        true
    }

    open spec fn eq_spec(&self, other: &Self) -> bool {
        self.slot() == other.slot() && self.owner() == other.owner()
    }
}

impl<T> Actor<T> {
    /// The place of the actor's state in its arbitrator.
    pub closed spec fn slot(self) -> nat {
        self.index as nat
    }

    /// The arbitrator that the handle belongs to.
    pub closed spec fn owner(self) -> QCellOwnerID {
        self.maker
    }

    /// Two handles with the same slot and owner are the same handle.
    pub proof fn lemma_identity(self, other: Self)
        requires
            self.slot() == other.slot(),
            self.owner() == other.owner(),
        ensures
            self == other,
    {
    }

    pub(crate) fn issue(index: usize, maker: QCellOwnerID) -> (actor: Self)
        ensures
            actor.slot() == index,
            actor.owner() == maker,
    {
        Actor { index, maker, kind: PhantomData }
    }

    pub(crate) fn index(&self) -> (index: usize)
        ensures
            index == self.slot(),
    {
        self.index
    }

    /// The identifier of the arbitrator that the handle belongs to.
    pub fn maker(&self) -> (maker: QCellOwnerID)
        ensures
            maker == self.owner(),
    {
        self.maker
    }

    /// A fresh handle to the same actor.
    pub fn actor(&self) -> (other: Actor<T>)
        ensures
            other == *self,
    {
        *self
    }
}

} // verus!
