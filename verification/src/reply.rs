//! Reply slots and the receipts for fulfilling them.
//!
//! A reply slot is bound to one request and takes one value. Offering a value
//! uses the slot up, so no slot is fulfilled twice. A [`Receipt`] names the
//! slot and the value, and it can be made in no other way than by offering
//! that value to that slot: whoever holds the receipt of a slot has not left
//! the slot pending.

use vstd::prelude::*;
use tokio::sync::oneshot;

verus! {

/// Whether a reply reached its receiver.
#[derive(Clone, Copy, Debug, PartialEq, Eq, Structural)]
pub enum Delivery {
    /// The reply slot took the value.
    Delivered,
    /// The reply could not be delivered, because its receiver had gone. Such a
    /// failure is fatal to this one request only.
    Failed,
}

impl Delivery {
    /// What the outcome of an attempt to send says about the delivery.
    pub fn of<T>(sent: &Result<(), T>) -> (delivery: Delivery)
        ensures
            delivery == (if sent is Ok {
                Delivery::Delivered
            } else {
                Delivery::Failed
            }),
    {
        match sent {
            Ok(_) => Delivery::Delivered,
            Err(_) => Delivery::Failed,
        }
    }
}

/// The trace that a reply slot leaves behind when it is used up.
#[verifier::reject_recursive_types(T)]
pub struct Receipt<T> {
    slot: Ghost<oneshot::Sender<T>>,
    offered: Ghost<T>,
    delivery: Delivery,
}

impl<T> Receipt<T> {
    /// The slot that was used up.
    pub closed spec fn slot(&self) -> oneshot::Sender<T> {
        self.slot@
    }

    /// The value that was offered to the slot.
    pub closed spec fn offered(&self) -> T {
        self.offered@
    }

    /// Whether the value reached the receiver.
    pub closed spec fn outcome(&self) -> Delivery {
        self.delivery
    }

    /// Whether the value reached the receiver.
    pub fn delivery(&self) -> (delivery: Delivery)
        ensures
            delivery == self.outcome(),
    {
        self.delivery
    }
}

/// Offers `value` to the reply slot, which is used up by it, and returns the
/// receipt. Whether the value is delivered depends on the receiver alone.
pub fn fulfil<T>(slot: oneshot::Sender<T>, value: T) -> (receipt: Receipt<T>)
    ensures
        receipt.slot() == slot,
        receipt.offered() == value,
{
    let ghost used = slot;
    let ghost offered = value;
    let sent = slot.send(value);
    Receipt { slot: Ghost(used), offered: Ghost(offered), delivery: Delivery::of(&sent) }
}

} // verus!
