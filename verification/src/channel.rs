//! The channels between the window and the fetch worker.
//!
//! Both are channels of the standard library. What comes out of a channel
//! depends on what the thread at its other end has done, so nothing here
//! promises anything about what a channel takes or gives: the callers are
//! verified for every outcome. The one thing stated is the bound that the
//! control channel was made with.

use crate::config::Msg;
use std::sync::mpsc::{Receiver, Sender, SyncSender};
use vstd::prelude::*;

verus! {

/// `std::sync::mpsc::Sender`, the sending end of a channel without a bound.
#[verifier::external_type_specification]
#[verifier::external_body]
#[verifier::reject_recursive_types(T)]
pub struct ExSender<T>(Sender<T>);

/// `std::sync::mpsc::SyncSender`, the sending end of a channel with a bound.
#[verifier::external_type_specification]
#[verifier::external_body]
#[verifier::reject_recursive_types(T)]
pub struct ExSyncSender<T>(SyncSender<T>);

/// `std::sync::mpsc::Receiver`, the receiving end of either channel.
#[verifier::external_type_specification]
#[verifier::external_body]
#[verifier::reject_recursive_types(T)]
pub struct ExReceiver<T>(Receiver<T>);

/// Calls `std::sync::mpsc::channel`: a channel without a bound. Nothing is
/// claimed of the two ends.
#[verifier::external_body]
pub(crate) fn unbounded<T>() -> (ends: (Sender<T>, Receiver<T>)) {
    std::sync::mpsc::channel()
}

/// How many messages the control channel behind `tx` was made to hold.
pub uninterp spec fn control_bound(tx: SyncSender<Msg>) -> nat;

/// Calls `std::sync::mpsc::sync_channel`, which makes a channel that holds at
/// most `bound` items: the contract says that the channel was made with that
/// bound, and nothing else of the two ends.
#[verifier::external_body]
pub(crate) fn bounded(bound: usize) -> (ends: (SyncSender<Msg>, Receiver<Msg>))
    ensures
        control_bound(ends.0) == bound,
{
    std::sync::mpsc::sync_channel(bound)
}

/// Calls `Sender::send`, which never blocks. The item comes back where the
/// receiving end is gone.
#[verifier::external_body]
pub(crate) fn send<T>(tx: &Sender<T>, item: T) -> (refused: Option<T>) {
    match tx.send(item) {
        Ok(()) => None,
        Err(e) => Some(e.0),
    }
}

/// Calls `SyncSender::try_send`, which never blocks. Tells whether the channel
/// took the item: it does not where it is full or its receiving end is gone.
#[verifier::external_body]
pub(crate) fn try_send<T>(tx: &SyncSender<T>, item: T) -> (taken: bool) {
    tx.try_send(item).is_ok()
}

/// Calls `Receiver::try_recv`, which never blocks. `None` where no item is
/// waiting or the sending end is gone.
#[verifier::external_body]
pub(crate) fn try_recv<T>(rx: &Receiver<T>) -> (item: Option<T>) {
    rx.try_recv().ok()
}

} // verus!
