//! Trusted declarations for the outbound channel handles.
//!
//! A connected client is reached through the sending half of an unbounded
//! channel; the receiving half is owned by that client's handler loop. The
//! handle type is opaque here: the registry stores such handles and pairs
//! each with its own integer identity.

use vstd::prelude::*;

verus! {

#[verifier::external_type_specification]
#[verifier::external_body]
#[verifier::reject_recursive_types(T)]
pub struct ExUnboundedSender<T>(tokio::sync::mpsc::UnboundedSender<T>);

/// Relies on `tokio::sync::mpsc::UnboundedSender::send`: queues the message
/// for the receiving half without blocking and returns `Ok`, or returns
/// `Err` when the receiving half has been dropped or closed. Success depends
/// on the receiver's state, so nothing more is stated of the outcome.
#[verifier::external_body]
pub(crate) fn send_text(sender: &tokio::sync::mpsc::UnboundedSender<String>, msg: &str) -> (ok: bool) {
    sender.send(msg.to_owned()).is_ok()
}

/// Relies on the `Clone` impl of `tokio::sync::mpsc::UnboundedSender`: hands
/// back a second handle to the same channel.
#[verifier::external_body]
pub(crate) fn clone_sender(
    sender: &tokio::sync::mpsc::UnboundedSender<String>,
) -> (r: tokio::sync::mpsc::UnboundedSender<String>) {
    sender.clone()
}

} // verus!
