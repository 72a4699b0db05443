//! When to try again after a connection was lost.
//!
//! Taking up what was going on again is left to the application: only it knows
//! which tasks still matter.
use crate::span::{span_limit, Span};
use vstd::arithmetic::mul::lemma_mul_inequality;
use vstd::arithmetic::power::{lemma_pow_increases, lemma_pow_positive, pow};
use vstd::prelude::*;

verus! {

/// A schedule of growing delays. Chance is taken off a delay where it is used.
#[derive(Debug, Clone, Copy, PartialEq, Eq, Structural)]
pub struct Backoff {
    /// How long to wait before the first retry.
    pub initial: Span,
    /// How long to wait at most.
    pub max: Span,
    /// How much longer each delay is than the one before it.
    pub multiplier: u32,
    /// How often to try. Nothing means for ever.
    pub max_attempts: Option<u32>,
}

impl Default for Backoff {
    fn default() -> (r: Self)
        ensures
            r.initial@ == 1_000_000_000,
            r.max@ == 30_000_000_000,
            r.multiplier == 2,
            r.max_attempts == Some(10u32),
    {
        Backoff {
            initial: Span::from_secs(1),
            max: Span::from_secs(30),
            multiplier: 2,
            max_attempts: Some(10),
        }
    }
}

/// How often a delay has grown before an attempt. The first retry is attempt 1.
pub open spec fn steps(attempt: u32) -> nat {
    if attempt == 0 {
        0
    } else {
        (attempt - 1) as nat
    }
}

/// By how much a delay grows: nothing shrinks it.
pub open spec fn growth(b: Backoff) -> int {
    if b.multiplier == 0 {
        1
    } else {
        b.multiplier as int
    }
}

/// How long to wait before an attempt: the first delay, grown, and never more
/// than the longest.
pub open spec fn base_nanos(b: Backoff, attempt: u32) -> int {
    let grown = b.initial@ * pow(growth(b), steps(attempt));
    if grown < b.max@ {
        grown
    } else {
        b.max@ as int
    }
}

proof fn lemma_stays_long(b: Backoff, i: nat, n: nat)
    requires
        i <= n,
        b.initial@ * pow(growth(b), i) >= b.max@,
    ensures
        b.initial@ * pow(growth(b), n) >= b.max@,
{
    lemma_pow_increases(growth(b) as nat, i, n);
    lemma_pow_positive(growth(b), i);
    lemma_mul_inequality(
        pow(growth(b), i),
        pow(growth(b), n),
        b.initial@ as int,
    );
    assert(b.initial@ * pow(growth(b), i) == pow(growth(b), i) * b.initial@) by (nonlinear_arith);
    assert(b.initial@ * pow(growth(b), n) == pow(growth(b), n) * b.initial@) by (nonlinear_arith);
}

impl Backoff {
    /// How long to wait before `attempt`, before chance is taken off.
    pub fn base_delay(&self, attempt: u32) -> (r: Span)
        ensures
            r@ == base_nanos(*self, attempt),
    {
        let count: u32 = if attempt == 0 {
            0
        } else {
            attempt - 1
        };
        let factor: u128 = if self.multiplier == 0 {
            1
        } else {
            self.multiplier as u128
        };
        let max: u128 = self.max.as_nanos();
        let mut delay: u128 = self.initial.as_nanos();
        let mut i: u32 = 0;
        proof {
            vstd::arithmetic::power::lemma_pow0(growth(*self));
        }
        while i < count
            invariant
                i <= count,
                count == steps(attempt),
                factor == growth(*self),
                1 <= factor <= u32::MAX,
                max == self.max@,
                max < span_limit(),
                delay < span_limit(),
                delay == self.initial@ * pow(growth(*self), i as nat),
            decreases count - i,
        {
            assert(delay * factor < 0x1_0000_0000_0000_0000_0000_0000_0000_0000) by (nonlinear_arith)
                requires
                    0 <= delay < 0x1_0000_0000_0000_0000int * 1_000_000_000,
                    1 <= factor <= 0xffff_ffff,
            ;
            let next: u128 = delay * factor;
            proof {
                reveal(pow);
                assert(pow(growth(*self), (i + 1) as nat) == growth(*self) * pow(
                    growth(*self),
                    i as nat,
                ));
                let d = self.initial@ as int;
                let p = pow(growth(*self), i as nat);
                let g = growth(*self);
                assert(d * (g * p) == (d * p) * g) by (nonlinear_arith);
            }
            if next >= max {
                proof {
                    lemma_stays_long(*self, (i + 1) as nat, count as nat);
                }
                return self.max;
            }
            delay = next;
            i = i + 1;
        }
        if delay < max {
            match Span::from_nanos(delay) {
                Some(s) => s,
                None => self.max,
            }
        } else {
            self.max
        }
    }

    /// Whether `attempt` may still be made.
    pub fn allows(&self, attempt: u32) -> (r: bool)
        ensures
            r == (match self.max_attempts {
                Some(m) => attempt <= m,
                None => true,
            }),
    {
        match self.max_attempts {
            Some(m) => attempt <= m,
            None => true,
        }
    }
}

/// No delay is longer than the longest, however many attempts have failed.
pub proof fn law_delays_are_capped(b: Backoff, attempt: u32)
    ensures
        base_nanos(b, attempt) <= b.max@,
{
}

/// A later attempt never waits less than an earlier one.
pub proof fn law_delays_never_shrink(b: Backoff, earlier: u32, later: u32)
    requires
        earlier <= later,
    ensures
        base_nanos(b, earlier) <= base_nanos(b, later),
{
    let i = steps(earlier);
    let n = steps(later);
    lemma_pow_increases(growth(b) as nat, i, n);
    lemma_mul_inequality(pow(growth(b), i), pow(growth(b), n), b.initial@ as int);
    assert(b.initial@ * pow(growth(b), i) == pow(growth(b), i) * b.initial@) by (nonlinear_arith);
    assert(b.initial@ * pow(growth(b), n) == pow(growth(b), n) * b.initial@) by (nonlinear_arith);
}

/// The first retry waits for as long as the schedule begins with, or for the longest
/// delay, if that is shorter. So does a try that is no retry.
pub proof fn law_delays_begin_with_the_first(b: Backoff)
    ensures
        base_nanos(b, 1) == (if b.initial@ < b.max@ {
            b.initial@
        } else {
            b.max@
        }),
        base_nanos(b, 0) == base_nanos(b, 1),
{
    vstd::arithmetic::power::lemma_pow0(growth(b));
    assert(b.initial@ * 1 == b.initial@) by (nonlinear_arith);
}

/// Each later attempt waits for the delay before it, times the multiplier, or for the
/// longest delay, if that is shorter. A multiplier of zero counts as one.
pub proof fn law_delays_grow_step_by_step(b: Backoff, attempt: u32)
    requires
        1 <= attempt < u32::MAX,
    ensures
        ({
            let next = base_nanos(b, attempt) * (if b.multiplier > 1 {
                b.multiplier as int
            } else {
                1int
            });
            base_nanos(b, (attempt + 1) as u32) == (if next < b.max@ {
                next
            } else {
                b.max@ as int
            })
        }),
{
    let n = steps(attempt);
    let g = growth(b);
    let p = pow(g, n);
    let d = b.initial@ as int;
    let x = b.max@ as int;
    assert(steps((attempt + 1) as u32) == n + 1);
    reveal(pow);
    assert(pow(g, n + 1) == g * p);
    lemma_pow_positive(g, n);
    assert(d * (g * p) == (d * p) * g) by (nonlinear_arith);
    if d * p >= x {
        assert((d * p) * g >= x) by (nonlinear_arith)
            requires
                d * p >= x,
                x >= 0,
                g >= 1,
        ;
        assert(x * g >= x) by (nonlinear_arith)
            requires
                x >= 0,
                g >= 1,
        ;
    }
}

} // verus!
