//! The bounded FIFO channel carrying stream events between a producer
//! worker and its consumer, wrapped for the rest of the crate.
use vstd::prelude::*;
use std::sync::mpsc::{Receiver, SyncSender};
use std::time::Duration;
use crate::state::State;

verus! {

#[verifier::external_type_specification]
#[verifier::external_body]
#[verifier::reject_recursive_types(T)]
pub struct ExSyncSender<T>(SyncSender<T>);

#[verifier::external_type_specification]
#[verifier::external_body]
#[verifier::reject_recursive_types(T)]
pub struct ExReceiver<T>(Receiver<T>);

/// What one receive attempt yielded.
#[derive(Debug)]
pub enum RecvOutcome {
    /// The next event, in producer order.
    Event(State),
    /// No event arrived within the configured duration.
    TimedOut,
    /// The sending side is gone and the channel is drained.
    Closed,
}

/// Relies on `std::sync::mpsc::sync_channel`: a bounded channel whose
/// receiver yields events in the order they were sent.
#[verifier::external_body]
pub fn new_state_channel(capacity: usize) -> (r: (SyncSender<State>, Receiver<State>)) {
    std::sync::mpsc::sync_channel(capacity)
}

/// Relies on `SyncSender::send`: enqueues the event, blocking while the
/// channel is full, or hands the event back once the receiver is gone.
#[verifier::external_body]
pub fn send_state(tx: &SyncSender<State>, s: State) -> (r: Result<(), State>)
    ensures
        r matches Err(v) ==> v@ == s@,
{
    match tx.send(s) {
        Ok(()) => Ok(()),
        Err(e) => Err(e.0),
    }
}

/// Relies on `Receiver::recv`: blocks for the next event; reports the
/// channel closed once the sender is gone and the queue is drained. A
/// blocking receive never times out.
#[verifier::external_body]
pub fn recv_state(rx: &Receiver<State>) -> (r: RecvOutcome)
    ensures
        !(r is TimedOut),
{
    match rx.recv() {
        Ok(s) => RecvOutcome::Event(s),
        Err(_) => RecvOutcome::Closed,
    }
}

/// Relies on `Receiver::recv_timeout`: waits at most the given number of
/// milliseconds for the next event.
#[verifier::external_body]
pub fn recv_state_timeout(rx: &Receiver<State>, timeout_ms: u64) -> (r: RecvOutcome) {
    match rx.recv_timeout(Duration::from_millis(timeout_ms)) {
        Ok(s) => RecvOutcome::Event(s),
        Err(std::sync::mpsc::RecvTimeoutError::Timeout) => RecvOutcome::TimedOut,
        Err(std::sync::mpsc::RecvTimeoutError::Disconnected) => RecvOutcome::Closed,
    }
}

} // verus!
