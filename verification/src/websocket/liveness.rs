//! Keep-alive pings and idle timeouts.
use crate::span::Span;
use vstd::prelude::*;

verus! {

/// The timings of a connection.
#[derive(Debug, Clone, Copy, PartialEq, Eq, Structural)]
pub struct Liveness {
    /// How often to ping.
    pub ping_interval: Span,
    /// How long to wait for the pong.
    pub pong_timeout: Span,
    /// How long a connection may carry no message before it is closed.
    pub idle_timeout: Span,
}

/// The timings of a connection in nanoseconds.
#[verifier::ext_equal]
pub struct LivenessView {
    pub ping_interval: nat,
    pub pong_timeout: nat,
    pub idle_timeout: nat,
}

impl View for Liveness {
    type V = LivenessView;

    open spec fn view(&self) -> LivenessView {
        LivenessView {
            ping_interval: self.ping_interval@,
            pong_timeout: self.pong_timeout@,
            idle_timeout: self.idle_timeout@,
        }
    }
}

/// The timings that hold where none are given: thirty seconds, ten seconds, five
/// minutes.
pub open spec fn usual_liveness() -> LivenessView {
    LivenessView {
        ping_interval: 30_000_000_000,
        pong_timeout: 10_000_000_000,
        idle_timeout: 300_000_000_000,
    }
}

/// The timings that hold where none are given.
pub fn default_liveness() -> (r: Liveness)
    ensures
        r@ == usual_liveness(),
{
    Liveness {
        ping_interval: Span::from_secs(30),
        pong_timeout: Span::from_secs(10),
        idle_timeout: Span::from_secs(300),
    }
}

/// Whether a server pings and times out, and with which timings.
#[derive(Debug, Clone, Copy, PartialEq, Eq, Structural)]
pub enum LivenessPolicy {
    /// Those of [`default_liveness`].
    Default,
    /// These.
    Custom(Liveness),
    /// Not at all. Fit only behind a proxy that does both.
    Disabled,
}

impl Default for LivenessPolicy {
    fn default() -> (r: Self)
        ensures
            r == LivenessPolicy::Default,
    {
        LivenessPolicy::Default
    }
}

/// The timings of an optional set.
pub open spec fn opt_liveness(o: Option<Liveness>) -> Option<LivenessView> {
    match o {
        Some(l) => Some(l@),
        None => None,
    }
}

impl LivenessPolicy {
    /// The timings that hold, if any.
    pub fn liveness(&self) -> (r: Option<Liveness>)
        ensures
            opt_liveness(r) == (match *self {
                LivenessPolicy::Default => Some(usual_liveness()),
                LivenessPolicy::Custom(l) => Some(l@),
                LivenessPolicy::Disabled => None,
            }),
            *self matches LivenessPolicy::Custom(l) ==> r == Some(l),
    {
        match self {
            LivenessPolicy::Default => Some(default_liveness()),
            LivenessPolicy::Custom(l) => Some(*l),
            LivenessPolicy::Disabled => None,
        }
    }
}

/// When a connection last carried a message, and how many pongs it has answered
/// with. Times are milliseconds since the connection began.
#[derive(Debug)]
pub struct ActivityTracker {
    last_message_ms: u64,
    pongs: u64,
}

impl ActivityTracker {
    /// When the last message was seen.
    pub closed spec fn last_message(&self) -> u64 {
        self.last_message_ms
    }

    /// How many pongs were seen.
    pub closed spec fn pongs(&self) -> u64 {
        self.pongs
    }

    /// A connection at its start.
    pub fn new() -> (r: Self)
        ensures
            r.last_message() == 0,
            r.pongs() == 0,
    {
        ActivityTracker { last_message_ms: 0, pongs: 0 }
    }

    /// Notes a message, in either direction: a stream that only sends is busy,
    /// not idle.
    pub fn record_message(&mut self, now_ms: u64)
        ensures
            final(self).last_message() == now_ms,
            final(self).pongs() == old(self).pongs(),
    {
        self.last_message_ms = now_ms;
    }

    /// Notes a pong. The count starts again after `u64::MAX`.
    pub fn record_pong(&mut self)
        ensures
            final(self).pongs() == (if old(self).pongs() == u64::MAX {
                0
            } else {
                (old(self).pongs() + 1) as u64
            }),
            final(self).last_message() == old(self).last_message(),
    {
        self.pongs = if self.pongs == u64::MAX {
            0
        } else {
            self.pongs + 1
        };
    }

    /// How many pongs were seen. It is compared before and after a ping, so that
    /// no clock is needed.
    pub fn pong_count(&self) -> (r: u64)
        ensures
            r == self.pongs(),
    {
        self.pongs
    }

    /// How many milliseconds it is since the last message.
    pub fn idle_for(&self, now_ms: u64) -> (r: u64)
        ensures
            r == (if now_ms <= self.last_message() {
                0
            } else {
                now_ms - self.last_message()
            }),
    {
        if now_ms <= self.last_message_ms {
            0
        } else {
            now_ms - self.last_message_ms
        }
    }
}

/// Where no timings are given, a ping is sent each thirty seconds, its pong is waited for
/// ten, and a connection may be idle for five minutes.
pub proof fn law_usual_timings_are_these()
    ensures
        usual_liveness().ping_interval == 30 * 1_000_000_000,
        usual_liveness().pong_timeout == 10 * 1_000_000_000,
        usual_liveness().idle_timeout == 5 * 60 * 1_000_000_000,
{
}

} // verus!
