//! The identity of an arbitrator.
//!
//! The identity comes from a `qcell::QCellOwner`: as long as the owner
//! lives, no other owner of the process has its identifier.

use qcell::{QCellOwner, QCellOwnerID};
use vstd::prelude::*;

verus! {

/// `qcell::QCellOwner`, of which nothing is known here.
#[verifier::external_type_specification]
#[verifier::external_body]
pub struct ExQCellOwner(QCellOwner);

/// `qcell::QCellOwnerID`, of which nothing is known here but when two are
/// the same.
#[verifier::external_type_specification]
#[verifier::external_body]
pub struct ExQCellOwnerID(QCellOwnerID);

/// Makes an owner with `QCellOwner::new`. Nothing is claimed of it.
#[verifier::external_body]
pub(crate) fn new_owner() -> (owner: QCellOwner) {
    QCellOwner::new()
}

/// The identifier of `owner`, from `QCellOwner::id`. Nothing is claimed of
/// it.
#[verifier::external_body]
pub(crate) fn owner_id(owner: &QCellOwner) -> (id: QCellOwnerID) {
    owner.id()
}

/// Compares two identifiers with `QCellOwnerID`'s `==`, which compares the
/// one number that an identifier is made of.
#[verifier::external_body]
pub(crate) fn same_owner(left: QCellOwnerID, right: QCellOwnerID) -> (same: bool)
    ensures
        same == (left == right),
{
    left == right
}

} // verus!
