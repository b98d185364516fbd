//! The channels that carry commands in and replies out.
//!
//! Nothing in this file is proved: each item states what this crate takes for
//! granted of `tokio::sync`.

use vstd::prelude::*;

verus! {

/// `tokio::sync::oneshot::Sender`: the sending half of a channel that carries
/// one value. It is used here as a reply slot and never looked into.
#[verifier::external_type_specification]
#[verifier::external_body]
#[verifier::reject_recursive_types(T)]
pub struct ExOneshotSender<T>(tokio::sync::oneshot::Sender<T>);

/// `tokio::sync::mpsc::UnboundedSender`: a sending half of the command
/// channel. Never looked into.
#[verifier::external_type_specification]
#[verifier::external_body]
#[verifier::reject_recursive_types(T)]
pub struct ExUnboundedSender<T>(tokio::sync::mpsc::UnboundedSender<T>);

/// `tokio::sync::mpsc::UnboundedReceiver`: the receiving half of the command
/// channel. Never looked into.
#[verifier::external_type_specification]
#[verifier::external_body]
#[verifier::reject_recursive_types(T)]
pub struct ExUnboundedReceiver<T>(tokio::sync::mpsc::UnboundedReceiver<T>);

/// `tokio::sync::mpsc::unbounded_channel` makes a channel and returns its two
/// halves. Nothing is claimed of them.
pub assume_specification<T>[ tokio::sync::mpsc::unbounded_channel::<T> ]() -> (halves: (
    tokio::sync::mpsc::UnboundedSender<T>,
    tokio::sync::mpsc::UnboundedReceiver<T>,
));

/// `tokio::sync::oneshot::Sender::send` offers `value` to the receiver and
/// uses the slot up; it never waits. Whether it succeeds depends on the
/// receiver alone. What is claimed is that a value that could not be delivered
/// comes back unchanged.
pub assume_specification<T>[ tokio::sync::oneshot::Sender::<T>::send ](
    slot: tokio::sync::oneshot::Sender<T>,
    value: T,
) -> (sent: Result<(), T>)
    ensures
        sent matches Err(returned) ==> returned == value,
;

/// Calls `tokio::sync::mpsc::UnboundedSender::send`, which never waits.
/// Whether it succeeds depends on the receiving half alone. What is claimed is
/// that a message that a closed channel refused comes back unchanged; it is
/// taken out of the `SendError` that carried it.
#[verifier::external_body]
pub(crate) fn send_unbounded<T>(
    sender: &tokio::sync::mpsc::UnboundedSender<T>,
    message: T,
) -> (sent: Result<(), T>)
    ensures
        sent matches Err(returned) ==> returned == message,
{
    match sender.send(message) {
        Ok(()) => Ok(()),
        Err(refused) => Err(refused.0),
    }
}

/// Calls `clone` on a `tokio::sync::mpsc::UnboundedSender`, which gives one
/// more sending half of the same channel: the clone holds the same channel as
/// the sender it is made from, and nothing else. A sender is never looked
/// into here, so its value stands for the channel that it feeds and for
/// nothing more. What is claimed is that the clone is that same value.
#[verifier::external_body]
pub(crate) fn clone_sender<T>(
    sender: &tokio::sync::mpsc::UnboundedSender<T>,
) -> (another: tokio::sync::mpsc::UnboundedSender<T>)
    ensures
        another == *sender,
{
    sender.clone()
}

} // verus!
