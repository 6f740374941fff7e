use vstd::prelude::*;
use crate::record::Kevent;
use crate::registrar::spec_read_oneshot_record;
use crate::queue::{QueueError, WaitOutcome};

verus! {

/// The correlation tags of a batch of fired records, in kernel-reported order.
pub open spec fn batch_tags(events: Seq<Kevent>) -> Seq<u64> {
    events.map_values(|e: Kevent| e.udata)
}

/// What draining a queue against a sequence of wait outcomes yields.
pub struct DrainModel {
    /// Correlation tags reported to the caller, in order.
    pub completions: Seq<u64>,
    /// Fired records consumed, in order.
    pub records: Seq<Kevent>,
    /// Number of wait calls issued, the failing one included.
    pub waits: nat,
    /// The first fatal error, if any stopped the drain.
    pub error: Option<QueueError>,
    /// Registrations still outstanding when the drain stopped.
    pub remaining: nat,
}

/// The wait/dispatch loop, one wait outcome at a time: while completions are
/// pending it consumes the next outcome; a failed wait or a breached protocol
/// stops it at once; each fired record retires one pending registration.
pub open spec fn spec_drain(pending: nat, outcomes: Seq<WaitOutcome>) -> DrainModel
    decreases outcomes.len(),
{
    if pending == 0 {
        DrainModel {
            completions: Seq::empty(),
            records: Seq::empty(),
            waits: 0,
            error: None,
            remaining: 0,
        }
    } else if outcomes.len() == 0 {
        DrainModel {
            completions: Seq::empty(),
            records: Seq::empty(),
            waits: 0,
            error: None,
            remaining: pending,
        }
    } else {
        match outcomes[0] {
            WaitOutcome::Failed { status } => DrainModel {
                completions: Seq::empty(),
                records: Seq::empty(),
                waits: 1,
                error: Some(QueueError::OsResource { status }),
                remaining: pending,
            },
            WaitOutcome::Fired { events } => if events@.len() == 0 || events@.len() > pending {
                DrainModel {
                    completions: Seq::empty(),
                    records: Seq::empty(),
                    waits: 1,
                    error: Some(QueueError::ProtocolViolation),
                    remaining: pending,
                }
            } else {
                let rest = spec_drain((pending - events@.len()) as nat, outcomes.drop_first());
                DrainModel {
                    completions: batch_tags(events@) + rest.completions,
                    records: events@ + rest.records,
                    waits: 1 + rest.waits,
                    error: rest.error,
                    remaining: rest.remaining,
                }
            },
        }
    }
}

/// What one drain run reported: the correlation tags, how many wait calls
/// were issued, and the error that stopped the run, if any.
pub struct DrainReport {
    /// Correlation tags reported, in order.
    pub completions: Vec<u64>,
    /// Number of wait calls issued, the failing one included.
    pub waits: usize,
    /// The first fatal error, if any stopped the drain.
    pub error: Option<QueueError>,
}

/// Owns one opened queue handle and the pending-completion counter. The loop
/// is RUNNING while the counter is positive and DRAINED once it reaches zero.
pub struct EventLoop {
    queue: i32,
    pending: usize,
}

impl EventLoop {
    /// The owned queue handle.
    pub closed spec fn queue_handle(&self) -> int {
        self.queue as int
    }

    /// Completions still outstanding.
    pub closed spec fn pending_count(&self) -> nat {
        self.pending as nat
    }

    /// The owned handle came from a successful open, so it is non-negative.
    pub open spec fn well_formed(&self) -> bool {
        self.queue_handle() >= 0
    }

    /// Takes ownership of an opened queue handle, with the pending counter
    /// initialized to the number of outstanding registrations.
    pub fn new(queue: i32, total_pending: usize) -> (l: EventLoop)
        requires
            queue >= 0,
        ensures
            l.well_formed(),
            l.queue_handle() == queue as int,
            l.pending_count() == total_pending as nat,
    {
        EventLoop { queue, pending: total_pending }
    }

    /// The owned queue handle.
    pub fn queue(&self) -> (h: i32)
        ensures
            h as int == self.queue_handle(),
    {
        self.queue
    }

    /// Completions still outstanding.
    pub fn pending(&self) -> (n: usize)
        ensures
            n as nat == self.pending_count(),
    {
        self.pending
    }

    /// Whether the loop has reached its terminal state: no completion pending.
    pub fn is_drained(&self) -> (b: bool)
        ensures
            b == (self.pending_count() == 0),
    {
        self.pending == 0
    }

    /// Consumes the outcome of one wait call. A failed wait is fatal; an empty
    /// batch from an indefinite wait, or more records than completions are
    /// pending, breaches the protocol; otherwise each record retires one
    /// pending registration and its correlation tag is reported, in order.
    pub fn absorb(&mut self, outcome: &WaitOutcome) -> (r: Result<Vec<u64>, QueueError>)
        ensures
            final(self).queue_handle() == old(self).queue_handle(),
            (match *outcome {
                WaitOutcome::Failed { status } => {
                    &&& r matches Err(e) && e == (QueueError::OsResource { status })
                    &&& final(self).pending_count() == old(self).pending_count()
                },
                WaitOutcome::Fired { events } => {
                    if events@.len() == 0 || events@.len() > old(self).pending_count() {
                        &&& r matches Err(e) && e == QueueError::ProtocolViolation
                        &&& final(self).pending_count() == old(self).pending_count()
                    } else {
                        &&& r matches Ok(tags) && tags@ == batch_tags(events@)
                        &&& final(self).pending_count()
                            == old(self).pending_count() - events@.len()
                    }
                },
            }),
    {
        match outcome {
            WaitOutcome::Failed { status } => Err(QueueError::OsResource { status: *status }),
            WaitOutcome::Fired { events } => {
                if events.len() == 0 || events.len() > self.pending {
                    Err(QueueError::ProtocolViolation)
                } else {
                    self.pending = self.pending - events.len();
                    let mut tags: Vec<u64> = Vec::new();
                    let n: usize = events.len();
                    let mut i: usize = 0;
                    while i < n
                        invariant
                            i <= n,
                            n == events@.len(),
                            tags@ == batch_tags(events@.take(i as int)),
                        decreases n - i,
                    {
                        tags.push(events[i].udata);
                        proof {
                            assert(events@.take(i + 1 as int)
                                =~= events@.take(i as int).push(events@[i as int]));
                            assert(batch_tags(events@.take(i + 1 as int))
                                =~= batch_tags(events@.take(i as int)).push(events@[i as int].udata));
                        }
                        i = i + 1;
                    }
                    proof {
                        assert(events@.take(n as int) =~= events@);
                    }
                    Ok(tags)
                }
            },
        }
    }

    /// Runs the wait/dispatch loop against a sequence of wait outcomes: while
    /// completions are pending, the next outcome is consumed; the loop stops
    /// in its terminal state, at the first fatal error, or when the outcomes
    /// run out. It issues no further wait after a failure.
    #[verifier::loop_isolation(false)]
    pub fn drain(&mut self, outcomes: &Vec<WaitOutcome>) -> (r: DrainReport)
        ensures
            final(self).queue_handle() == old(self).queue_handle(),
            ({
                let m = spec_drain(old(self).pending_count(), outcomes@);
                &&& r.completions@ == m.completions
                &&& r.waits as nat == m.waits
                &&& r.error == m.error
                &&& final(self).pending_count() == m.remaining
            }),
    {
        let ghost m = spec_drain(self.pending as nat, outcomes@);
        let mut completions: Vec<u64> = Vec::new();
        let mut idx: usize = 0;
        let n: usize = outcomes.len();
        proof {
            assert(outcomes@.skip(0) =~= outcomes@);
            assert(Seq::<u64>::empty() + m.completions =~= m.completions);
        }
        while idx < n && self.pending > 0
            invariant
                idx <= n,
                self.queue_handle() == old(self).queue_handle(),
                ({
                    let rest = spec_drain(self.pending as nat, outcomes@.skip(idx as int));
                    &&& m.completions == completions@ + rest.completions
                    &&& m.waits == idx + rest.waits
                    &&& m.error == rest.error
                    &&& m.remaining == rest.remaining
                }),
            decreases n - idx,
        {
            let ghost p = self.pending as nat;
            let ghost tail = outcomes@.skip(idx as int);
            proof {
                assert(tail[0] == outcomes@[idx as int]);
                assert(tail.drop_first() =~= outcomes@.skip(idx as int + 1));
            }
            let res = self.absorb(&outcomes[idx]);
            match res {
                Ok(mut tags) => {
                    proof {
                        let rest = spec_drain(p, tail);
                        let rest2 = spec_drain(
                            self.pending as nat,
                            outcomes@.skip(idx as int + 1),
                        );
                        assert(completions@ + rest.completions
                            =~= (completions@ + tags@) + rest2.completions);
                    }
                    completions.append(&mut tags);
                    idx = idx + 1;
                }
                Err(e) => {
                    proof {
                        let rest = spec_drain(p, tail);
                        assert(completions@ + rest.completions =~= completions@);
                    }
                    return DrainReport { completions, waits: idx + 1, error: Some(e) };
                }
            }
        }
        proof {
            let rest = spec_drain(self.pending as nat, outcomes@.skip(idx as int));
            assert(completions@ + rest.completions =~= completions@);
        }
        DrainReport { completions, waits: idx, error: None }
    }
}

/// With no fatal error, the loop retires registrations one completion at a
/// time: the completions reported plus what is still pending account for
/// every outstanding registration. A loop that reaches its terminal state
/// therefore reports exactly as many completions as registrations were
/// outstanding, and with none outstanding it terminates at once, issuing no
/// wait at all.
pub proof fn lemma_drain_reports_every_registration(pending: nat, outcomes: Seq<WaitOutcome>)
    ensures
        ({
            let m = spec_drain(pending, outcomes);
            &&& m.error is None ==> m.completions.len() + m.remaining == pending
            &&& m.error is None && m.remaining == 0 ==> m.completions.len() == pending
            &&& pending == 0 ==> m.waits == 0 && m.completions.len() == 0
        }),
    decreases outcomes.len(),
{
    if pending == 0 {
    } else if outcomes.len() == 0 {
    } else {
        match outcomes[0] {
            WaitOutcome::Failed { .. } => {},
            WaitOutcome::Fired { events } => {
                if 0 < events@.len() <= pending {
                    lemma_drain_reports_every_registration(
                        (pending - events@.len()) as nat,
                        outcomes.drop_first(),
                    );
                }
            },
        }
    }
}

/// Every completion the loop reports is the correlation tag of the fired
/// record it consumed, in the order the kernel returned the records.
pub proof fn lemma_completions_are_record_tags(pending: nat, outcomes: Seq<WaitOutcome>)
    ensures
        spec_drain(pending, outcomes).completions
            == batch_tags(spec_drain(pending, outcomes).records),
    decreases outcomes.len(),
{
    if pending == 0 {
        assert(spec_drain(pending, outcomes).completions
            =~= batch_tags(spec_drain(pending, outcomes).records));
    } else if outcomes.len() == 0 {
        assert(spec_drain(pending, outcomes).completions
            =~= batch_tags(spec_drain(pending, outcomes).records));
    } else {
        match outcomes[0] {
            WaitOutcome::Failed { .. } => {
                assert(spec_drain(pending, outcomes).completions
                    =~= batch_tags(spec_drain(pending, outcomes).records));
            },
            WaitOutcome::Fired { events } => {
                if 0 < events@.len() <= pending {
                    let rest = spec_drain((pending - events@.len()) as nat, outcomes.drop_first());
                    lemma_completions_are_record_tags(
                        (pending - events@.len()) as nat,
                        outcomes.drop_first(),
                    );
                    assert(batch_tags(events@ + rest.records)
                        =~= batch_tags(events@) + batch_tags(rest.records));
                } else {
                    assert(spec_drain(pending, outcomes).completions
                        =~= batch_tags(spec_drain(pending, outcomes).records));
                }
            },
        }
    }
}

/// Completions correlate to registrations one for one: when the records a
/// drain consumed are exactly the records the registrar built for a sequence
/// of (resource, tag) pairs, in that order, the tags it reports are exactly
/// the registered tags, in that order.
pub proof fn lemma_completions_echo_registration_tags(
    pending: nat,
    outcomes: Seq<WaitOutcome>,
    resources: Seq<u64>,
    tags: Seq<u64>,
)
    requires
        resources.len() == tags.len(),
        spec_drain(pending, outcomes).records
            == Seq::new(tags.len(), |i: int| spec_read_oneshot_record(resources[i], tags[i])),
    ensures
        spec_drain(pending, outcomes).completions == tags,
{
    lemma_completions_are_record_tags(pending, outcomes);
    let recs = spec_drain(pending, outcomes).records;
    assert(batch_tags(recs) =~= tags) by {
        assert forall|i: int| 0 <= i < tags.len() implies batch_tags(recs)[i] == tags[i] by {
            assert(recs[i] == spec_read_oneshot_record(resources[i], tags[i]));
        }
    }
}

/// A failed wait is fatal at once: the loop issues that one wait call and no
/// further, reports no completion, and surfaces the negative status.
pub proof fn lemma_failed_wait_halts(pending: nat, outcomes: Seq<WaitOutcome>, status: i32)
    requires
        pending > 0,
        outcomes.len() > 0,
        outcomes[0] == (WaitOutcome::Failed { status }),
    ensures
        ({
            let m = spec_drain(pending, outcomes);
            &&& m.waits == 1
            &&& m.completions.len() == 0
            &&& m.error == Some((QueueError::OsResource { status }))
            &&& m.remaining == pending
        }),
{
}

} // verus!
