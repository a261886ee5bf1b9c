//! The read-loop worker's state machine and the records it publishes.
//! On each iteration the worker polls its cancellation channel without
//! blocking, decides whether to keep running, and, after a successful
//! device read of `n` bytes, publishes exactly those `n` bytes to the
//! event channel named after the port's path.

use vstd::prelude::*;
use std::sync::mpsc::Receiver;
use crate::channel::poll_signal;
use crate::channel::SignalPoll;
use vstd::string::StringExecFns;

verus! {

/// The worker's state after one poll of its cancellation channel;
/// `Running` is the only non-terminal state.
#[derive(Clone, Copy, Debug, PartialEq, Eq, Structural)]
pub enum WorkerState {
    /// Nothing was pending: keep reading.
    Running,
    /// A cancellation signal arrived: exit the loop.
    Cancelled,
    /// The send endpoint is gone (its wrapper was destroyed without
    /// signalling): exit the loop.
    Disconnected,
}

/// The state a poll outcome transitions the worker into.
pub open spec fn step_of(poll: SignalPoll) -> WorkerState {
    match poll {
        SignalPoll::Signal => WorkerState::Cancelled,
        SignalPoll::Disconnected => WorkerState::Disconnected,
        SignalPoll::Empty => WorkerState::Running,
    }
}

/// Decides the worker's next state from one poll outcome.
pub fn worker_step(poll: SignalPoll) -> (s: WorkerState)
    ensures
        s == step_of(poll),
{
    match poll {
        SignalPoll::Signal => WorkerState::Cancelled,
        SignalPoll::Disconnected => WorkerState::Disconnected,
        SignalPoll::Empty => WorkerState::Running,
    }
}

/// Polls the cancellation channel once, without blocking, and returns
/// both what the poll observed and the state it transitions the worker
/// into; whatever the channel held, the returned state is the correct
/// transition for the returned observation.
pub fn worker_poll(receiver: &Receiver<usize>) -> (r: (SignalPoll, WorkerState))
    ensures
        r.1 == step_of(r.0),
{
    let poll = poll_signal(receiver);
    (poll, worker_step(poll))
}

/// One published read: the bytes of one successful device read and
/// their count.
pub struct ReadData {
    pub data: Vec<u8>,
    pub size: usize,
}

/// Builds the record for a read that filled the first `size` bytes of
/// `buf`: exactly those bytes, in order, and their count.
pub fn read_event_payload(buf: &Vec<u8>, size: usize) -> (r: ReadData)
    requires
        size <= buf@.len(),
    ensures
        r.data@ == buf@.take(size as int),
        r.size == size,
{
    let mut data: Vec<u8> = Vec::new();
    let mut i: usize = 0;
    while i < size
        invariant
            i <= size,
            size <= buf@.len(),
            data@ == buf@.take(i as int),
        decreases size - i,
    {
        data.push(buf[i]);
        proof {
            assert(data@ =~= buf@.take(i + 1));
        }
        i += 1;
    }
    ReadData { data, size }
}

/// The name of the per-port event channel a worker publishes to: the
/// fixed prefix followed by the port's path.
pub fn read_event_name(path: &String) -> (r: String)
    ensures
        r@ == "plugin-serialport-read-"@ + path@,
{
    let mut s = String::from_str("plugin-serialport-read-");
    s.append(path.as_str());
    s
}

} // verus!
