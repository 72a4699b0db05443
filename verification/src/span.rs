//! Lengths of time.
use vstd::prelude::*;

verus! {

/// How many nanoseconds make a second.
pub const NANOS_PER_SEC: u128 = 1_000_000_000;

/// How many nanoseconds make a millisecond.
pub const NANOS_PER_MILLI: u128 = 1_000_000;

/// A length of time, in whole nanoseconds. It is shorter than 2^64 seconds.
#[derive(Debug, Clone, Copy, PartialEq, Eq, Structural)]
pub struct Span {
    nanos: u128,
}

/// The first number of nanoseconds that is too long for a [`Span`].
pub open spec fn span_limit() -> int {
    0x1_0000_0000_0000_0000int * 1_000_000_000
}

impl View for Span {
    type V = nat;

    closed spec fn view(&self) -> nat {
        self.nanos as nat
    }
}

impl Span {
    #[verifier::type_invariant]
    spec fn bounded(self) -> bool {
        self.nanos < span_limit()
    }

    /// A number of seconds.
    pub fn from_secs(secs: u64) -> (r: Self)
        ensures
            r@ == secs * 1_000_000_000,
    {
        Span { nanos: secs as u128 * NANOS_PER_SEC }
    }

    /// A number of milliseconds.
    pub fn from_millis(millis: u64) -> (r: Self)
        ensures
            r@ == millis * 1_000_000,
    {
        Span { nanos: millis as u128 * NANOS_PER_MILLI }
    }

    /// A number of nanoseconds, if it is not too long.
    pub fn from_nanos(nanos: u128) -> (r: Option<Self>)
        ensures
            match r {
                Some(s) => s@ == nanos && nanos < span_limit(),
                None => nanos >= span_limit(),
            },
    {
        if nanos < 0x1_0000_0000_0000_0000 * NANOS_PER_SEC {
            Some(Span { nanos })
        } else {
            None
        }
    }

    /// How many nanoseconds this is.
    pub fn as_nanos(&self) -> (r: u128)
        ensures
            r == self@,
            r < span_limit(),
    {
        proof {
            use_type_invariant(self);
        }
        self.nanos
    }
}

} // verus!
