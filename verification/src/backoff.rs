//! Backoff controller: counts consecutive failures of retryable remote
//! calls and computes how long the caller must sleep before retrying.

use vstd::prelude::*;

verus! {

/// Cap on the consecutive-failure count.
pub const MAX_FAILS: u64 = 10;

/// Milliseconds of sleep charged per counted failure.
pub const DELAY_PER_FAIL_MS: u64 = 1000;

/// Exclusive upper bound of the random jitter added to each delay.
pub const JITTER_BOUND_MS: u64 = 1000;

/// Relies on rand::random_range: a sample drawn from the non-empty range
/// `0..JITTER_BOUND_MS` lies strictly below the bound.
#[verifier::external_body]
fn sample_jitter() -> (r: u64)
    ensures
        r < JITTER_BOUND_MS,
{
    rand::random_range(0u64..JITTER_BOUND_MS)
}

/// Tracks consecutive failures for retryable operations.
pub struct Backoff {
    pub fails: u64,
}

impl Backoff {
    /// The failure count never leaves `0 ..= MAX_FAILS`.
    pub open spec fn wf(self) -> bool {
        self.fails <= MAX_FAILS
    }

    pub fn new() -> (b: Backoff)
        ensures
            b.fails == 0,
            b.wf(),
    {
        Backoff { fails: 0 }
    }

    /// A success steps the failure count down by one, floored at zero.
    pub fn ok(&mut self)
        ensures
            final(self).fails == if old(self).fails > 0 {
                (old(self).fails - 1) as u64
            } else {
                0u64
            },
            old(self).wf() ==> final(self).wf(),
    {
        if self.fails > 0 {
            self.fails = self.fails - 1;
        }
    }

    /// A failure yields the number of milliseconds the caller must sleep
    /// (one `DELAY_PER_FAIL_MS` per counted failure, plus jitter), then
    /// steps the failure count up by one, capped at `MAX_FAILS`.
    pub fn fail_wait(&mut self) -> (delay_ms: u64)
        requires
            old(self).wf(),
        ensures
            old(self).fails * DELAY_PER_FAIL_MS <= delay_ms
                < old(self).fails * DELAY_PER_FAIL_MS + JITTER_BOUND_MS,
            final(self).fails == if old(self).fails + 1 <= MAX_FAILS {
                (old(self).fails + 1) as u64
            } else {
                MAX_FAILS
            },
            final(self).wf(),
    {
        let jitter = sample_jitter();
        let delay_ms = DELAY_PER_FAIL_MS * self.fails + jitter;
        if self.fails < MAX_FAILS {
            self.fails = self.fails + 1;
        }
        delay_ms
    }

    /// One attempt of the retry-forever policy: invokes `call` once. On
    /// success it records the success and delivers the value; on error it
    /// reports the error to `on_err`, runs the failure step ([`Self::fail_wait`]),
    /// and hands back the milliseconds the caller must sleep before the
    /// next attempt. The operation is assumed to be safe to repeat and
    /// the policy never gives up, so the caller loops until a value is
    /// delivered; that unbounded repetition cannot be proved to terminate
    /// and therefore stays outside verified code.
    pub fn loop_wait<T, E, C: Fn() -> Result<T, E>, H: Fn(E)>(
        &mut self,
        call: C,
        on_err: H,
    ) -> (r: Result<T, u64>)
        requires
            old(self).wf(),
            call_requires(call, ()),
            forall|e: E|
                call_ensures(call, (), Result::<T, E>::Err(e)) ==> call_requires(on_err, (e,)),
        ensures
            match r {
                Ok(x) => call_ensures(call, (), Result::<T, E>::Ok(x))
                    && final(self).fails == if old(self).fails > 0 {
                    (old(self).fails - 1) as u64
                } else {
                    0u64
                },
                Err(delay_ms) => {
                    &&& exists|e: E| call_ensures(call, (), Result::<T, E>::Err(e))
                    &&& final(self).fails == if old(self).fails + 1 <= MAX_FAILS {
                        (old(self).fails + 1) as u64
                    } else {
                        MAX_FAILS
                    }
                    &&& old(self).fails * DELAY_PER_FAIL_MS <= delay_ms
                        < old(self).fails * DELAY_PER_FAIL_MS + JITTER_BOUND_MS
                },
            },
            final(self).wf(),
    {
        match call() {
            Ok(x) => {
                self.ok();
                Ok(x)
            },
            Err(e) => {
                on_err(e);
                let delay_ms = self.fail_wait();
                Err(delay_ms)
            },
        }
    }
}

/// The sleep before a retry never shrinks when the failure count grows:
/// for the same jitter, a larger count is charged at least as long a delay.
/// Hence a success, which steps the count down, can only shorten the
/// delays charged by subsequent failures.
pub proof fn lemma_delay_monotonic(fails_low: u64, fails_high: u64, jitter: u64)
    requires
        fails_low <= fails_high,
    ensures
        fails_low * DELAY_PER_FAIL_MS + jitter <= fails_high * DELAY_PER_FAIL_MS + jitter,
{
    assert(fails_low * DELAY_PER_FAIL_MS <= fails_high * DELAY_PER_FAIL_MS) by (nonlinear_arith)
        requires fails_low <= fails_high;
}

} // verus!
