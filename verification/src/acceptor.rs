//! The accept loop's decision rule. The loop itself owns the non-blocking
//! listener and runs for the life of the process; this module fixes what
//! each poll outcome leads to, so that no outcome can terminate the loop
//! or drop the pool.

use vstd::prelude::*;

verus! {

/// What one poll of the non-blocking listener produced.
pub enum AcceptEvent {
    /// A connection was accepted.
    Connection,
    /// No connection is currently pending ("would block").
    WouldBlock,
    /// The poll failed with any other I/O error.
    Failure,
}

/// What the accept loop does next. There is no terminating action: every
/// poll outcome keeps the loop alive.
#[derive(Clone, Copy, PartialEq, Eq, Structural, Debug)]
pub enum AcceptAction {
    /// Hand the connection to the worker pool and poll again.
    Submit,
    /// A normal empty poll: poll again immediately.
    Poll,
    /// Log the per-connection error and poll again; the error never
    /// propagates past this connection.
    LogAndPoll,
}

/// Maps a poll outcome to the loop's next action: an accepted connection
/// is submitted to the pool, "would block" is a normal empty poll, and any
/// other error is logged and the loop continues.
pub fn accept_step(event: &AcceptEvent) -> (action: AcceptAction)
    ensures
        action == match event {
            AcceptEvent::Connection => AcceptAction::Submit,
            AcceptEvent::WouldBlock => AcceptAction::Poll,
            AcceptEvent::Failure => AcceptAction::LogAndPoll,
        },
{
    match event {
        AcceptEvent::Connection => AcceptAction::Submit,
        AcceptEvent::WouldBlock => AcceptAction::Poll,
        AcceptEvent::Failure => AcceptAction::LogAndPoll,
    }
}

} // verus!
