//! The single-slot cancellation channel between the command surface and
//! a read-loop worker, built on `std::sync::mpsc`.  The channel types
//! and the three calls the crate makes on them are trusted; everything
//! that decides on their outcomes is verified elsewhere.

use vstd::prelude::*;
use std::sync::mpsc::Receiver;
use std::sync::mpsc::Sender;
use std::sync::mpsc::TryRecvError;

verus! {

/// Outcome of one non-blocking poll of a cancellation channel, as the
/// read-loop worker sees it.
#[derive(Clone, Copy, Debug, PartialEq, Eq, Structural)]
pub enum SignalPoll {
    /// A cancellation signal was pending.
    Signal,
    /// The send endpoint was dropped without signalling.
    Disconnected,
    /// Nothing was pending.
    Empty,
}

#[verifier::external_type_specification]
#[verifier::external_body]
#[verifier::reject_recursive_types(T)]
pub struct ExSender<T>(Sender<T>);

#[verifier::external_type_specification]
#[verifier::external_body]
#[verifier::reject_recursive_types(T)]
pub struct ExReceiver<T>(Receiver<T>);

/// Relies on `std::sync::mpsc::channel`: returns the two endpoints of a
/// fresh asynchronous channel.
#[verifier::external_body]
pub(crate) fn signal_channel() -> (Sender<usize>, Receiver<usize>) {
    std::sync::mpsc::channel()
}

/// Relies on `std::sync::mpsc::Sender::send`: delivers one value, or
/// fails exactly when the receiving end has been dropped; never blocks
/// and never panics.  The failure is rendered to its description.
#[verifier::external_body]
pub(crate) fn send_signal(sender: &Sender<usize>) -> Result<(), String> {
    match sender.send(1) {
        Ok(()) => Ok(()),
        Err(e) => Err(format!("{}", e)),
    }
}

/// Relies on `std::sync::mpsc::Receiver::try_recv`: never blocks, and
/// reports either a pending value, an empty queue, or that the send
/// endpoint was dropped.
#[verifier::external_body]
pub(crate) fn poll_signal(receiver: &Receiver<usize>) -> SignalPoll {
    match receiver.try_recv() {
        Ok(_) => SignalPoll::Signal,
        Err(TryRecvError::Empty) => SignalPoll::Empty,
        Err(TryRecvError::Disconnected) => SignalPoll::Disconnected,
    }
}

} // verus!
