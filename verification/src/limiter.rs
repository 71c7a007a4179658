//! Pacing of one worker's operations to a target rate.
//!
//! The limiter never reads a clock. Its caller hands it readings of one
//! monotonic clock, in nanoseconds since an origin of the caller's choice,
//! and spins on that clock between the limiter's decisions.
//!
//! A worker's deadlines are the instants `k` spacings after its start, each
//! rounded down to the clock's nanosecond. Nothing is rounded before that, so
//! the schedule keeps the target rate however long it runs.

use vstd::prelude::*;

verus! {

pub const NANOS_PER_SECOND: u128 = 1_000_000_000;

/// Whole nanoseconds from a worker's start to its deadline number `k`, when
/// `threads` workers share `rate` operations per second: a worker's own rate
/// is `rate / threads`, its spacing one second over that, and the deadline
/// lies `k` spacings after the start.
pub open spec fn schedule_nanos(rate: nat, threads: nat, k: nat) -> nat {
    (k * (1_000_000_000 * threads)) / rate
}

/// Whole nanoseconds between two operations of one worker: its first spacing.
pub open spec fn inter_arrival_nanos(rate: nat, threads: nat) -> nat {
    (1_000_000_000 * threads) / rate
}

/// Whole nanoseconds by which worker `thread_id` starts after worker 0: its
/// share, by `thread_id`, of one spacing divided evenly among the workers.
/// Nothing when all workers are to start together.
pub open spec fn stagger_offset_nanos(rate: nat, thread_id: nat, spiky: bool) -> nat {
    if spiky {
        0
    } else {
        (1_000_000_000 * thread_id) / rate
    }
}

/// Nanoseconds by which a clock that reads `now_nanos` has passed `deadline_nanos`.
pub open spec fn drift_nanos(now_nanos: u64, deadline_nanos: u128) -> u64 {
    if now_nanos > deadline_nanos {
        (now_nanos - deadline_nanos) as u64
    } else {
        0
    }
}

/// The schedule of one worker.
#[derive(Clone, Copy, Debug, PartialEq, Eq, Structural)]
pub struct RateLimiter {
    /// The target rate of all workers together, in operations per second.
    pub rate: u64,
    /// The number of workers that share the rate.
    pub threads: u64,
    /// The clock reading, in nanoseconds, from which the deadlines count: the
    /// reading at which the limiter was made, plus the worker's stagger offset.
    pub start_nanos: u128,
    /// The number of the deadline that was scheduled last.
    pub scheduled: u64,
}

/// One scheduled operation: when it may start, and how late it was scheduled.
#[derive(Clone, Copy, Debug, PartialEq, Eq, Structural)]
pub struct Pacing {
    /// The clock reading, in nanoseconds, before which the operation must not start.
    pub deadline_nanos: u128,
    /// Nanoseconds by which the clock had already passed the deadline when
    /// the operation was scheduled.
    pub drift_nanos: u64,
}

impl RateLimiter {
    /// The clock reading, in nanoseconds, of deadline number `k`.
    pub open spec fn deadline_of(self, k: nat) -> nat {
        (self.start_nanos + schedule_nanos(self.rate as nat, self.threads as nat, k)) as nat
    }

    /// The clock reading, in nanoseconds, of the deadline scheduled last.
    pub open spec fn deadline_nanos(self) -> nat {
        self.deadline_of(self.scheduled as nat)
    }

    /// Whether one more operation can be scheduled: the rate is positive, and
    /// the next deadline and its number are within their types' ranges.
    pub open spec fn can_advance(self) -> bool {
        &&& self.rate > 0
        &&& self.scheduled < u64::MAX
        &&& self.deadline_of((self.scheduled + 1) as nat) <= u128::MAX
    }

    /// The limiter after one more operation was scheduled.
    pub open spec fn advanced(self) -> RateLimiter {
        RateLimiter { scheduled: (self.scheduled + 1) as u64, ..self }
    }

    /// The limiter of worker `thread_id` out of `threads`, which together are
    /// to reach `rate` operations per second, made when the clock reads
    /// `now_nanos`. Its schedule starts at the worker's stagger offset, and
    /// its deadline stands one spacing after that; the first operation is due
    /// one spacing later.
    pub fn new(rate: u64, threads: u64, thread_id: u64, spiky: bool, now_nanos: u64) -> (limiter:
        RateLimiter)
        requires
            rate > 0,
        ensures
            limiter == (RateLimiter {
                rate,
                threads,
                start_nanos: (now_nanos + stagger_offset_nanos(
                    rate as nat,
                    thread_id as nat,
                    spiky,
                )) as u128,
                scheduled: 1,
            }),
            limiter.deadline_nanos() == now_nanos + stagger_offset_nanos(
                rate as nat,
                thread_id as nat,
                spiky,
            ) + inter_arrival_nanos(rate as nat, threads as nat),
    {
        let offset: u128 = if spiky {
            0
        } else {
            NANOS_PER_SECOND * (thread_id as u128) / (rate as u128)
        };
        RateLimiter { rate, threads, start_nanos: (now_nanos as u128) + offset, scheduled: 1 }
    }

    /// The clock reading, in nanoseconds, of deadline number `k`, where the
    /// rate is positive and the reading within the clock's range.
    pub fn deadline_at(&self, k: u64) -> (deadline: Option<u128>)
        ensures
            deadline is Some <==> self.rate > 0 && self.deadline_of(k as nat) <= u128::MAX,
            deadline matches Some(reading) ==> reading == self.deadline_of(k as nat),
    {
        if self.rate == 0 {
            return None;
        }
        let rate: u128 = self.rate as u128;
        let count: u128 = k as u128;
        let per_second: u128 = NANOS_PER_SECOND * (self.threads as u128);
        let whole: u128 = per_second / rate;
        let rest: u128 = per_second % rate;
        proof {
            lemma_split_quotient(count as nat, per_second as nat, rate as nat);
            assert(count * rest <= 0xffff_ffff_ffff_ffff * 0xffff_ffff_ffff_ffff)
                by (nonlinear_arith)
                requires
                    count <= 0xffff_ffff_ffff_ffff,
                    rest <= 0xffff_ffff_ffff_ffff,
            ;
            assert(count * whole >= 0) by (nonlinear_arith);
        }
        let partial: u128 = count * rest / rate;
        match count.checked_mul(whole) {
            Some(spacings) => match spacings.checked_add(partial) {
                Some(since_start) => self.start_nanos.checked_add(since_start),
                None => None,
            },
            None => None,
        }
    }

    /// Whether `run` may be called.
    pub fn has_room(&self) -> (room: bool)
        ensures
            room == self.can_advance(),
    {
        if self.scheduled < u64::MAX {
            self.deadline_at(self.scheduled + 1).is_some()
        } else {
            false
        }
    }

    /// Schedules the next operation, the clock reading `now_nanos`: its
    /// deadline is the next of the schedule, whatever the clock reads, and
    /// its drift is the time by which the clock has already passed that
    /// deadline.
    pub fn run(&mut self, now_nanos: u64) -> (pacing: Pacing)
        requires
            old(self).can_advance(),
        ensures
            *final(self) == old(self).advanced(),
            pacing.deadline_nanos == final(self).deadline_nanos(),
            pacing.drift_nanos == drift_nanos(now_nanos, pacing.deadline_nanos),
    {
        self.scheduled = self.scheduled + 1;
        let deadline: u128 = self.deadline_at(self.scheduled).unwrap();
        let now: u128 = now_nanos as u128;
        let drift: u64 = if now > deadline {
            (now - deadline) as u64
        } else {
            0
        };
        Pacing { deadline_nanos: deadline, drift_nanos: drift }
    }
}

impl Pacing {
    /// Whether the operation may start when the clock reads `now_nanos`.
    pub fn is_due(&self, now_nanos: u64) -> (due: bool)
        ensures
            due == (now_nanos >= self.deadline_nanos),
    {
        (now_nanos as u128) >= self.deadline_nanos
    }

    /// The latency to report for the operation, which took `elapsed_nanos`
    /// once started: the drift is carried into it.
    pub fn latency(&self, elapsed_nanos: u64) -> (latency: u128)
        ensures
            latency == elapsed_nanos + self.drift_nanos,
    {
        (elapsed_nanos as u128) + (self.drift_nanos as u128)
    }
}

/// A quotient of a product, from the quotient and the remainder of one factor.
proof fn lemma_split_quotient(k: nat, m: nat, d: nat)
    requires
        d > 0,
    ensures
        (k * m) / d == k * (m / d) + (k * (m % d)) / d,
{
    let q = m / d;
    let r = m % d;
    vstd::arithmetic::div_mod::lemma_fundamental_div_mod(m as int, d as int);
    assert(k * m == (k * r) + (k * q) * d) by (nonlinear_arith)
        requires
            m == d * q + r,
    ;
    assert(k * q >= 0 && k * r >= 0) by (nonlinear_arith);
    vstd::arithmetic::div_mod::lemma_hoist_over_denominator((k * r) as int, (k * q) as int, d);
}

/// Two numerators that lie at least one divisor apart have distinct quotients.
proof fn lemma_quotient_gap(a: nat, b: nat, d: nat)
    requires
        d > 0,
        a + d <= b,
    ensures
        a / d < b / d,
{
    assert(a / d < b / d) by (nonlinear_arith)
        requires
            d > 0,
            a + d <= b,
    ;
}

/// A quotient is the greatest whole number whose product with the divisor
/// does not exceed the numerator.
proof fn lemma_quotient_bounds(a: nat, d: nat)
    requires
        d > 0,
    ensures
        (a / d) * d <= a < (a / d + 1) * d,
{
    assert((a / d) * d <= a < (a / d + 1) * d) by (nonlinear_arith)
        requires
            d > 0,
            a >= 0,
    ;
}

/// With at most a thousand million operations per second in all, the
/// stagger offsets grow strictly with the worker's number and stay below one
/// spacing; when all workers start together, every offset is zero.
pub proof fn lemma_stagger_offsets(rate: nat, threads: nat, i: nat, j: nat)
    requires
        0 < rate <= 1_000_000_000,
        i <= j < threads,
    ensures
        i < j ==> stagger_offset_nanos(rate, i, false) < stagger_offset_nanos(rate, j, false),
        stagger_offset_nanos(rate, j, false) < inter_arrival_nanos(rate, threads),
        stagger_offset_nanos(rate, i, true) == 0,
        stagger_offset_nanos(rate, j, true) == 0,
{
    lemma_quotient_gap(1_000_000_000 * j, 1_000_000_000 * threads, rate);
    if i < j {
        lemma_quotient_gap(1_000_000_000 * i, 1_000_000_000 * j, rate);
    }
}

/// Every deadline is the exact instant, `k` spacings of
/// `1_000_000_000 * threads / rate` nanoseconds after the start, rounded down
/// to the clock's nanosecond.
pub proof fn lemma_deadlines_are_exact(rate: nat, threads: nat, k: nat)
    requires
        rate > 0,
    ensures
        schedule_nanos(rate, threads, k) * rate <= k * (1_000_000_000 * threads),
        k * (1_000_000_000 * threads) < (schedule_nanos(rate, threads, k) + 1) * rate,
{
    lemma_quotient_bounds(k * (1_000_000_000 * threads), rate);
}

/// Consecutive deadlines differ by one spacing: by `inter_arrival_nanos`, or
/// by one nanosecond more where the spacing is no whole number of
/// nanoseconds. Where it is one, every deadline lies exactly `k` spacings
/// after the start.
pub proof fn lemma_deadlines_evenly_spaced(rate: nat, threads: nat, k: nat)
    requires
        rate > 0,
    ensures
        schedule_nanos(rate, threads, k) + inter_arrival_nanos(rate, threads) <= schedule_nanos(
            rate,
            threads,
            k + 1,
        ) <= schedule_nanos(rate, threads, k) + inter_arrival_nanos(rate, threads) + 1,
        (1_000_000_000 * threads) % rate == 0 ==> schedule_nanos(rate, threads, k) == k
            * inter_arrival_nanos(rate, threads),
        schedule_nanos(rate, threads, 0) == 0,
        schedule_nanos(rate, threads, 1) == inter_arrival_nanos(rate, threads),
{
    let m = 1_000_000_000 * threads;
    let q = m / rate;
    let r = m % rate;
    lemma_split_quotient(k, m, rate);
    lemma_split_quotient(k + 1, m, rate);
    assert((k + 1) * q == k * q + q && (k + 1) * r == k * r + r && k * r >= 0)
        by (nonlinear_arith);
    // The remainders add up to less than one divisor more.
    let a = k * r;
    assert(a / rate <= (a + r) / rate <= a / rate + 1) by (nonlinear_arith)
        requires
            rate > 0,
            0 <= r < rate,
            a >= 0,
    ;
    if r == 0 {
        assert(k * r == 0) by (nonlinear_arith)
            requires
                r == 0,
        ;
    }
    assert(0 * m == 0 && 1 * m == m) by (nonlinear_arith);
}

/// Within any whole number of seconds from a worker's start lie exactly the
/// deadlines that its share of the rate allows: deadline `k` comes before
/// `seconds` have passed where `k * threads < seconds * rate`, and only there.
pub proof fn lemma_deadlines_keep_the_rate(rate: nat, threads: nat, k: nat, seconds: nat)
    requires
        rate > 0,
    ensures
        schedule_nanos(rate, threads, k) < seconds * 1_000_000_000 <==> k * threads < seconds
            * rate,
{
    let numerator = k * (1_000_000_000 * threads);
    let limit = seconds * 1_000_000_000;
    lemma_quotient_bounds(numerator, rate);
    assert(numerator == 1_000_000_000 * (k * threads)) by (nonlinear_arith)
        requires
            numerator == k * (1_000_000_000 * threads),
    ;
    assert(limit * rate == 1_000_000_000 * (seconds * rate)) by (nonlinear_arith)
        requires
            limit == seconds * 1_000_000_000,
    ;
    let s = schedule_nanos(rate, threads, k);
    if s < limit {
        assert((s + 1) * rate <= limit * rate) by (nonlinear_arith)
            requires
                s + 1 <= limit,
                rate > 0,
        ;
    } else {
        assert(limit * rate <= s * rate) by (nonlinear_arith)
            requires
                limit <= s,
                rate > 0,
        ;
    }
}

} // verus!
