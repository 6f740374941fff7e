use vstd::prelude::*;
use crate::event_loop::{spec_drain, EventLoop, lemma_drain_reports_every_registration};
use crate::queue::{QueueError, WaitOutcome};

verus! {

/// Index of the first registration whose submission failed, if any.
pub open spec fn first_submit_failure(statuses: Seq<i32>) -> Option<int>
    decreases statuses.len(),
{
    if statuses.len() == 0 {
        None
    } else if statuses[0] < 0 {
        Some(0int)
    } else {
        match first_submit_failure(statuses.drop_first()) {
            None => None,
            Some(i) => Some(i + 1),
        }
    }
}

proof fn lemma_first_submit_failure_at(statuses: Seq<i32>, i: int)
    requires
        0 <= i < statuses.len(),
        statuses[i] < 0,
        forall|j: int| 0 <= j < i ==> statuses[j] >= 0,
    ensures
        first_submit_failure(statuses) == Some(i),
    decreases statuses.len(),
{
    if i > 0 {
        assert forall|j: int| 0 <= j < i - 1 implies statuses.drop_first()[j] >= 0 by {
            assert(statuses.drop_first()[j] == statuses[j + 1]);
        }
        assert(statuses.drop_first()[i - 1] == statuses[i]);
        lemma_first_submit_failure_at(statuses.drop_first(), i - 1);
    }
}

proof fn lemma_first_submit_failure_none(statuses: Seq<i32>)
    requires
        forall|j: int| 0 <= j < statuses.len() ==> statuses[j] >= 0,
    ensures
        first_submit_failure(statuses) is None,
    decreases statuses.len(),
{
    if statuses.len() > 0 {
        assert forall|j: int| 0 <= j < statuses.len() - 1 implies statuses.drop_first()[j] >= 0 by {
            assert(statuses.drop_first()[j] == statuses[j + 1]);
        }
        lemma_first_submit_failure_none(statuses.drop_first());
    }
}

/// What a whole run yields: open the queue, submit one registration per
/// status, drain, and release the handle.
pub struct SessionModel {
    /// Correlation tags reported, in order.
    pub completions: Seq<u64>,
    /// Number of wait calls issued.
    pub waits: nat,
    /// Whether the opened handle was closed (exactly once when it was).
    pub closed: bool,
    /// The first fatal error, if any stopped the run.
    pub error: Option<QueueError>,
}

/// One full run over the queue. A failed open stops everything: nothing else
/// touches the handle. After a successful open the handle is closed on every
/// path, exactly once. A failed submission stops the run before any wait. The
/// loop then drains; the first failure wins, and a close that fails after a
/// clean drain is itself fatal.
pub open spec fn spec_session(
    open_status: i32,
    submits: Seq<i32>,
    outcomes: Seq<WaitOutcome>,
    close_status: i32,
) -> SessionModel {
    if open_status < 0 {
        SessionModel {
            completions: Seq::empty(),
            waits: 0,
            closed: false,
            error: Some(QueueError::OsResource { status: open_status }),
        }
    } else {
        match first_submit_failure(submits) {
            Some(i) => SessionModel {
                completions: Seq::empty(),
                waits: 0,
                closed: true,
                error: Some(QueueError::OsResource { status: submits[i] }),
            },
            None => {
                let m = spec_drain(submits.len(), outcomes);
                SessionModel {
                    completions: m.completions,
                    waits: m.waits,
                    closed: true,
                    error: if m.error is Some {
                        m.error
                    } else if close_status < 0 {
                        Some(QueueError::OsResource { status: close_status })
                    } else {
                        None
                    },
                }
            },
        }
    }
}

/// What one run reported.
pub struct SessionReport {
    /// Correlation tags reported, in order.
    pub completions: Vec<u64>,
    /// Number of wait calls issued.
    pub waits: usize,
    /// Whether the opened handle was closed.
    pub closed: bool,
    /// The first fatal error, if any stopped the run.
    pub error: Option<QueueError>,
}

/// Runs one full session: interprets the open status, the status of each
/// submitted registration, the supplied wait outcomes, and the close status,
/// exactly as `spec_session` states.
#[verifier::loop_isolation(false)]
pub fn run_session(
    open_status: i32,
    submit_statuses: &Vec<i32>,
    outcomes: &Vec<WaitOutcome>,
    close_status: i32,
) -> (r: SessionReport)
    ensures
        ({
            let m = spec_session(open_status, submit_statuses@, outcomes@, close_status);
            &&& r.completions@ == m.completions
            &&& r.waits as nat == m.waits
            &&& r.closed == m.closed
            &&& r.error == m.error
        }),
{
    if open_status < 0 {
        return SessionReport {
            completions: Vec::new(),
            waits: 0,
            closed: false,
            error: Some(QueueError::OsResource { status: open_status }),
        };
    }
    let n: usize = submit_statuses.len();
    let mut i: usize = 0;
    while i < n
        invariant
            i <= n,
            n == submit_statuses@.len(),
            forall|j: int| 0 <= j < i ==> submit_statuses@[j] >= 0,
        decreases n - i,
    {
        if submit_statuses[i] < 0 {
            proof {
                lemma_first_submit_failure_at(submit_statuses@, i as int);
            }
            return SessionReport {
                completions: Vec::new(),
                waits: 0,
                closed: true,
                error: Some(QueueError::OsResource { status: submit_statuses[i] }),
            };
        }
        i = i + 1;
    }
    proof {
        lemma_first_submit_failure_none(submit_statuses@);
    }
    let mut lp = EventLoop::new(open_status, n);
    let rep = lp.drain(outcomes);
    match rep.error {
        Some(e) => SessionReport {
            completions: rep.completions,
            waits: rep.waits,
            closed: true,
            error: Some(e),
        },
        None => {
            if close_status < 0 {
                SessionReport {
                    completions: rep.completions,
                    waits: rep.waits,
                    closed: true,
                    error: Some(QueueError::OsResource { status: close_status }),
                }
            } else {
                SessionReport {
                    completions: rep.completions,
                    waits: rep.waits,
                    closed: true,
                    error: None,
                }
            }
        },
    }
}

/// The opened handle is released exactly once per successful open: every run
/// that opened the queue closes it, the early-error paths included, and a run
/// whose open failed never holds a handle to close.
pub proof fn lemma_close_exactly_once(
    open_status: i32,
    submits: Seq<i32>,
    outcomes: Seq<WaitOutcome>,
    close_status: i32,
)
    ensures
        spec_session(open_status, submits, outcomes, close_status).closed == (open_status >= 0),
{
}

/// A failed open halts the run at once: no wait is issued, no completion is
/// reported, no close is attempted, and the negative status is surfaced.
pub proof fn lemma_failed_open_halts(
    open_status: i32,
    submits: Seq<i32>,
    outcomes: Seq<WaitOutcome>,
    close_status: i32,
)
    requires
        open_status < 0,
    ensures
        ({
            let m = spec_session(open_status, submits, outcomes, close_status);
            &&& m.waits == 0
            &&& m.completions.len() == 0
            &&& !m.closed
            &&& m.error == Some((QueueError::OsResource { status: open_status }))
        }),
{
}

/// A run whose registrations all succeed and whose loop reaches the terminal
/// state reports exactly one completion per registration.
pub proof fn lemma_session_reports_every_registration(
    open_status: i32,
    submits: Seq<i32>,
    outcomes: Seq<WaitOutcome>,
    close_status: i32,
)
    requires
        open_status >= 0,
        forall|j: int| 0 <= j < submits.len() ==> submits[j] >= 0,
        spec_drain(submits.len(), outcomes).error is None,
        spec_drain(submits.len(), outcomes).remaining == 0,
    ensures
        spec_session(open_status, submits, outcomes, close_status).completions.len()
            == submits.len(),
{
    lemma_first_submit_failure_none(submits);
    lemma_drain_reports_every_registration(submits.len(), outcomes);
}

} // verus!
