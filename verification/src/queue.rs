use vstd::prelude::*;
use crate::record::Kevent;

verus! {

/// Why a run stopped early: a native call reported a negative status, or the
/// kernel broke the protocol (an indefinite wait that returned no record, or
/// more records than registrations were outstanding).
#[derive(Clone, Copy, Debug, PartialEq, Eq, Structural)]
pub enum QueueError {
    /// A native call returned this negative status.
    OsResource { status: i32 },
    /// An internal invariant of the wait protocol was breached.
    ProtocolViolation,
}

/// Interprets the status a native queue call returned: non-negative is the
/// call's result (for open, the new handle), negative is a fatal failure.
pub fn check_status(status: i32) -> (r: Result<i32, QueueError>)
    ensures
        status >= 0 ==> r == Ok::<i32, QueueError>(status),
        status < 0 ==> r == Err::<i32, QueueError>((QueueError::OsResource { status })),
{
    if status < 0 {
        Err(QueueError::OsResource { status })
    } else {
        Ok(status)
    }
}

/// What one wait call on the queue produced: either the batch of fired
/// records the kernel handed back, or a negative status.
pub enum WaitOutcome {
    /// The kernel returned these fired records, in its reported order.
    Fired { events: Vec<Kevent> },
    /// The wait call failed with this negative status.
    Failed { status: i32 },
}

/// Interprets the raw result of one wait call. A non-negative status is the
/// count of fired records the kernel placed in `events`; a negative status
/// is a failure.
pub fn classify_wait(status: i32, events: Vec<Kevent>) -> (r: WaitOutcome)
    requires
        status >= 0 ==> events@.len() == status as int,
    ensures
        status < 0 ==> (r matches WaitOutcome::Failed { status: s } && s == status),
        status >= 0 ==> (r matches WaitOutcome::Fired { events: e } && e@ == events@),
{
    if status < 0 {
        WaitOutcome::Failed { status }
    } else {
        WaitOutcome::Fired { events }
    }
}

} // verus!
