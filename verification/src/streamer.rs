//! The rules that every stream follows: the two activity states, deferred
//! activation, and the bookkeeping of a write that must go out whole.

use crate::error::Error;
use vstd::prelude::*;

verus! {

/// Activity of a stream. A new stream is inactive.
#[derive(Clone, Copy, Debug, PartialEq, Eq, Structural)]
pub enum StreamState {
    /// Not streaming.
    Inactive,
    /// Streaming.
    Active,
}

/// How long to hold back a transition asked for at `time_ns`, when the
/// device clock reads `now_ns`: nothing without a time or for a time that
/// has passed, else the nanoseconds that are left.
pub open spec fn delay_spec(time_ns: Option<i64>, now_ns: i64) -> int {
    match time_ns {
        Some(t) => if t > now_ns {
            t - now_ns
        } else {
            0
        },
        None => 0,
    }
}

/// Nanoseconds to wait before a transition asked for at `time_ns` may be
/// issued, when the device clock reads `now_ns`. A time in the past never
/// blocks.
pub fn delay_until(time_ns: Option<i64>, now_ns: i64) -> (wait_ns: u64)
    ensures
        wait_ns == delay_spec(time_ns, now_ns),
        time_ns is Some && time_ns->Some_0 <= now_ns ==> wait_ns == 0,
{
    match time_ns {
        Some(t) => {
            if t > now_ns {
                (t as i128 - now_ns as i128) as u64
            } else {
                0
            }
        },
        None => 0,
    }
}

/// Waiting out the delay reaches the time asked for and never passes a
/// time that was still to come; of two times, the later is never due first.
pub proof fn lemma_delay_keeps_order(first: i64, second: i64, now_ns: i64)
    requires
        first <= second,
    ensures
        now_ns + delay_spec(Some(first), now_ns) >= first,
        first > now_ns ==> now_ns + delay_spec(Some(first), now_ns) == first,
        delay_spec(Some(first), now_ns) <= delay_spec(Some(second), now_ns),
{
}

/// The state after the hardware answered a request to start or stop.
/// Success moves to `target`; a failure leaves the state as it was.
pub open spec fn settle_spec(state: StreamState, target: StreamState, ok: bool) -> StreamState {
    if ok {
        target
    } else {
        state
    }
}

/// Record the hardware's answer to a request to start or stop. A failure
/// comes back as `Misc` with the hardware's message, and changes nothing.
pub fn settle(state: &mut StreamState, target: StreamState, outcome: Result<(), String>) -> (r:
    Result<(), Error>)
    ensures
        *final(state) == settle_spec(*old(state), target, outcome is Ok),
        outcome is Ok ==> r is Ok,
        outcome is Err ==> r == Err::<(), Error>(Error::Misc(outcome->Err_0)),
{
    match outcome {
        Ok(()) => {
            *state = target;
            Ok(())
        },
        Err(message) => Err(Error::Misc(message)),
    }
}

/// What a single write asks of the hardware.
#[derive(Clone, Copy, Debug, PartialEq, Eq, Structural)]
pub struct WriteRequest {
    /// Nanoseconds to hold back before the samples are handed over.
    pub wait_ns: u64,
    /// Samples on offer.
    pub samples: usize,
    /// Whether the burst ends with these samples.
    pub end_burst: bool,
    /// Microseconds to wait at most for room; never negative.
    pub timeout_us: i64,
}

/// What a single write of `samples` samples asks of the hardware: the
/// samples go out at `at_ns` on the device clock, which reads `now_ns`, or
/// at once without a time or for a time that has passed; a negative budget
/// counts as none.
pub open spec fn write_request_spec(
    samples: usize,
    at_ns: Option<i64>,
    now_ns: i64,
    end_burst: bool,
    timeout_us: i64,
) -> WriteRequest {
    WriteRequest {
        wait_ns: delay_spec(at_ns, now_ns) as u64,
        samples,
        end_burst,
        timeout_us: if timeout_us > 0 {
            timeout_us
        } else {
            0
        },
    }
}

/// The result of a single write of `samples` samples, given the hardware's
/// answer: the number of samples that it took, never more than were on
/// offer, or its failure as `Misc` with its message.
pub open spec fn written_spec(samples: usize, outcome: Result<usize, String>) -> Result<
    usize,
    Error,
> {
    match outcome {
        Ok(taken) => Ok(
            if taken <= samples {
                taken
            } else {
                samples
            },
        ),
        Err(message) => Err(Error::Misc(message)),
    }
}

/// What a single write of `samples` samples asks of the hardware.
pub fn write_request(
    samples: usize,
    at_ns: Option<i64>,
    now_ns: i64,
    end_burst: bool,
    timeout_us: i64,
) -> (r: WriteRequest)
    ensures
        r == write_request_spec(samples, at_ns, now_ns, end_burst, timeout_us),
{
    let budget: i64 = if timeout_us > 0 {
        timeout_us
    } else {
        0
    };
    WriteRequest { wait_ns: delay_until(at_ns, now_ns), samples, end_burst, timeout_us: budget }
}

/// The result of a single write of `samples` samples, given the hardware's
/// answer. A partial count is a success; a count beyond the samples on
/// offer is cut to them.
pub fn written(samples: usize, outcome: Result<usize, String>) -> (r: Result<usize, Error>)
    ensures
        r == written_spec(samples, outcome),
        outcome is Ok ==> r is Ok && r->Ok_0 <= samples,
{
    match outcome {
        Ok(taken) => {
            if taken <= samples {
                Ok(taken)
            } else {
                Ok(samples)
            }
        },
        Err(message) => Err(Error::Misc(message)),
    }
}

/// What a write that must go out whole does next.
#[derive(Clone, Copy, Debug, PartialEq, Eq, Structural)]
pub enum WriteStep {
    /// Hand the samples from `offset` on to the hardware, and wait at most
    /// `timeout_us` microseconds for room.
    Write { offset: usize, timeout_us: i64 },
    /// Every sample was accepted.
    Done,
    /// Time ran out with samples left.
    TimedOut,
}

/// Progress of a write that must go out whole.
#[derive(Clone, Copy, Debug, PartialEq, Eq, Structural)]
pub struct Transfer {
    /// Samples to send in all.
    pub total: usize,
    /// Samples that the hardware has accepted so far.
    pub sent: usize,
    /// Whether the hardware was asked at least once.
    pub attempted: bool,
}

impl Transfer {
    /// Never more sent than there is to send.
    pub open spec fn well_formed(self) -> bool {
        self.sent <= self.total
    }

    /// Samples not yet accepted.
    pub open spec fn unsent(self) -> int {
        self.total - self.sent
    }

    /// A write of `total` samples before anything was sent.
    pub open spec fn fresh(total: usize) -> Transfer {
        Transfer { total, sent: 0, attempted: false }
    }

    /// The progress after the hardware accepted `accepted` more samples.
    /// What it claims beyond the samples that were left is not counted.
    pub open spec fn after(self, accepted: usize) -> Transfer {
        Transfer {
            total: self.total,
            sent: if accepted <= self.unsent() {
                (self.sent + accepted) as usize
            } else {
                self.total
            },
            attempted: true,
        }
    }

    /// The next step with `remaining_us` microseconds of the budget left:
    /// done when nothing is unsent; otherwise one more attempt while time
    /// remains, and in any case a first one; otherwise timed out.
    pub open spec fn step_spec(self, remaining_us: i64) -> WriteStep {
        if self.sent >= self.total {
            WriteStep::Done
        } else if !self.attempted || remaining_us > 0 {
            WriteStep::Write {
                offset: self.sent,
                timeout_us: if remaining_us > 0 {
                    remaining_us
                } else {
                    0
                },
            }
        } else {
            WriteStep::TimedOut
        }
    }

    /// A write of `total` samples, none of them sent yet.
    pub fn new(total: usize) -> (r: Transfer)
        ensures
            r == Transfer::fresh(total),
            r.well_formed(),
    {
        Transfer { total, sent: 0, attempted: false }
    }

    /// The next step with `remaining_us` microseconds of the budget left.
    pub fn step(&self, remaining_us: i64) -> (r: WriteStep)
        ensures
            r == self.step_spec(remaining_us),
    {
        if self.sent >= self.total {
            WriteStep::Done
        } else if !self.attempted || remaining_us > 0 {
            let left: i64 = if remaining_us > 0 {
                remaining_us
            } else {
                0
            };
            WriteStep::Write { offset: self.sent, timeout_us: left }
        } else {
            WriteStep::TimedOut
        }
    }

    /// Record that the hardware accepted `accepted` more samples.
    pub fn record(&mut self, accepted: usize)
        requires
            old(self).well_formed(),
        ensures
            *final(self) == old(self).after(accepted),
            final(self).well_formed(),
    {
        let left = self.total - self.sent;
        if accepted <= left {
            self.sent = self.sent + accepted;
        } else {
            self.sent = self.total;
        }
        self.attempted = true;
    }

    /// The result of the whole write once `step` has said how it ended:
    /// success after `Done`, a `Misc` error after `TimedOut`.
    pub fn finish(last: WriteStep) -> (r: Result<(), Error>)
        requires
            last == WriteStep::Done || last == WriteStep::TimedOut,
        ensures
            r is Ok <==> last == WriteStep::Done,
            last == WriteStep::TimedOut ==> r is Err && r->Err_0 is Misc && r->Err_0->Misc_0@
                == "timeout"@,
    {
        match last {
            WriteStep::Done => Ok(()),
            _ => Err(Error::Misc(String::from_str("timeout"))),
        }
    }
}

/// A write that must go out whole ends in success exactly when nothing is
/// left unsent, whatever time remains: it never reports success on a part.
pub proof fn lemma_write_all_whole(t: Transfer, remaining_us: i64)
    requires
        t.well_formed(),
    ensures
        t.step_spec(remaining_us) == WriteStep::Done <==> t.unsent() == 0,
{
}

/// Once the hardware has taken all that was left, the write is done.
pub proof fn lemma_write_all_completes(t: Transfer, accepted: usize, remaining_us: i64)
    requires
        t.well_formed(),
        accepted >= t.unsent(),
    ensures
        t.after(accepted).unsent() == 0,
        t.after(accepted).step_spec(remaining_us) == WriteStep::Done,
{
}

/// With no time to wait and a device that has no room, a write of at least
/// one sample makes its one attempt and then times out.
pub proof fn lemma_write_all_no_room(total: usize)
    requires
        total > 0,
    ensures
        Transfer::fresh(total).step_spec(0) == (WriteStep::Write { offset: 0, timeout_us: 0 }),
        Transfer::fresh(total).after(0).step_spec(0) == WriteStep::TimedOut,
{
}

} // verus!
