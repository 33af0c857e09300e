//! Wall-clock instants and spans of time, held as whole seconds and nanoseconds.
//!
//! Both types are viewed as a number of nanoseconds, so that contracts
//! elsewhere in the crate compare and subtract plain integers.

use vstd::prelude::*;

verus! {

/// Nanoseconds in one second.
pub const NANOS_PER_SEC: u32 = 1_000_000_000;

/// An instant, counted from the Unix epoch. Its view is the number of
/// nanoseconds since the epoch, negative for instants before it.
#[derive(Clone, Copy, Debug, PartialEq, Eq)]
pub struct Timestamp {
    secs: i64,
    nanos: u32,
}

/// A span of time that is never negative. Its view is its length in
/// nanoseconds.
#[derive(Clone, Copy, Debug, PartialEq, Eq)]
pub struct Duration {
    secs: u64,
    nanos: u32,
}

impl View for Timestamp {
    type V = int;

    closed spec fn view(&self) -> int {
        self.secs * 1_000_000_000 + self.nanos
    }
}

impl View for Duration {
    type V = nat;

    closed spec fn view(&self) -> nat {
        (self.secs * 1_000_000_000 + self.nanos) as nat
    }
}

impl Timestamp {
    #[verifier::type_invariant]
    spec fn subsecond(self) -> bool {
        self.nanos < 1_000_000_000
    }

    /// The instant `nanos` nanoseconds after the whole second `secs`.
    /// `None` when `nanos` does not lie within one second.
    pub fn new(secs: i64, nanos: u32) -> (r: Option<Timestamp>)
        ensures
            r is Some <==> nanos < 1_000_000_000,
            r matches Some(t) ==> t@ == secs * 1_000_000_000 + nanos,
    {
        if nanos < NANOS_PER_SEC {
            Some(Timestamp { secs, nanos })
        } else {
            None
        }
    }

    /// Whole seconds since the epoch, rounded towards the past.
    pub fn secs(&self) -> (s: i64)
        ensures
            s == self@ / 1_000_000_000,
    {
        proof {
            use_type_invariant(self);
        }
        self.secs
    }

    /// The nanoseconds past the whole second.
    pub fn subsec_nanos(&self) -> (n: u32)
        ensures
            n == self@ % 1_000_000_000,
    {
        proof {
            use_type_invariant(self);
        }
        self.nanos
    }

    /// The time from this instant until `now`: `None` when `now` is the
    /// earlier of the two.
    pub fn elapsed_at(&self, now: Timestamp) -> (r: Option<Duration>)
        ensures
            r is Some <==> self@ <= now@,
            r matches Some(d) ==> d@ == now@ - self@,
    {
        proof {
            use_type_invariant(self);
            use_type_invariant(&now);
        }
        if now.secs < self.secs || (now.secs == self.secs && now.nanos < self.nanos) {
            return None;
        }
        let whole: i128 = now.secs as i128 - self.secs as i128;
        if now.nanos >= self.nanos {
            Some(Duration { secs: whole as u64, nanos: now.nanos - self.nanos })
        } else {
            Some(
                Duration {
                    secs: (whole - 1) as u64,
                    nanos: now.nanos + NANOS_PER_SEC - self.nanos,
                },
            )
        }
    }
}

/// Calls `SystemTime::try_from` of the crate prost-types on the protobuf
/// timestamp of `seconds` and `nanos`, and reads the instant back with that
/// crate's `Timestamp::from` as seconds and nanoseconds.
/// Not proved: that the nanoseconds that come back lie within one second.
/// Which timestamps the clock of a machine can express, and how finely it
/// keeps them, is left open. The outside function negates the seconds once
/// the nanoseconds are carried over or borrowed, which the bound on
/// `seconds` keeps from overflowing.
#[verifier::external_body]
fn system_time_parts(seconds: i64, nanos: i32) -> (r: Option<(i64, u32)>)
    requires
        seconds >= i64::MIN + 4,
    ensures
        r matches Some(parts) ==> parts.1 < 1_000_000_000,
{
    let time = std::time::SystemTime::try_from(prost_types::Timestamp { seconds, nanos }).ok()?;
    let back = prost_types::Timestamp::from(time);
    Some((back.seconds, back.nanos as u32))
}

impl Timestamp {
    /// The instant that the clock of this machine has for the protobuf
    /// timestamp of `seconds` and `nanos`, as finely as that clock keeps it:
    /// `None` where the clock cannot express it, and for the four earliest
    /// seconds that a timestamp can name.
    pub fn decode(seconds: i64, nanos: i32) -> (r: Option<Timestamp>)
        ensures
            seconds < i64::MIN + 4 ==> r is None,
    {
        if seconds < i64::MIN + 4 {
            None
        } else {
            match system_time_parts(seconds, nanos) {
                Some((secs, subsec)) => Timestamp::new(secs, subsec),
                None => None,
            }
        }
    }
}

impl Duration {
    #[verifier::type_invariant]
    spec fn subsecond(self) -> bool {
        self.nanos < 1_000_000_000
    }

    /// A span of `secs` seconds and `nanos` nanoseconds. Nanoseconds beyond
    /// one second carry over into the seconds; `None` when the seconds then
    /// no longer fit.
    pub fn new(secs: u64, nanos: u32) -> (r: Option<Duration>)
        ensures
            r is Some <==> secs + nanos / 1_000_000_000 <= u64::MAX,
            r matches Some(d) ==> d@ == secs * 1_000_000_000 + nanos,
    {
        let carry: u64 = (nanos / NANOS_PER_SEC) as u64;
        let rest: u32 = nanos % NANOS_PER_SEC;
        if secs > u64::MAX - carry {
            None
        } else {
            Some(Duration { secs: secs + carry, nanos: rest })
        }
    }

    /// A span of whole seconds.
    pub fn from_secs(secs: u64) -> (d: Duration)
        ensures
            d@ == secs * 1_000_000_000,
    {
        Duration { secs, nanos: 0 }
    }

    /// The length in nanoseconds.
    pub fn as_nanos(&self) -> (n: u128)
        ensures
            n == self@,
    {
        self.secs as u128 * 1_000_000_000 + self.nanos as u128
    }

    /// The whole seconds of the span.
    pub fn as_secs(&self) -> (s: u64)
        ensures
            s == self@ / 1_000_000_000,
    {
        proof {
            use_type_invariant(self);
        }
        self.secs
    }

    /// The nanoseconds past the whole seconds.
    pub fn subsec_nanos(&self) -> (n: u32)
        ensures
            n == self@ % 1_000_000_000,
    {
        proof {
            use_type_invariant(self);
        }
        self.nanos
    }

    /// This span shortened by `other`: `None` when `other` is the longer.
    pub fn checked_sub(&self, other: Duration) -> (r: Option<Duration>)
        ensures
            r is Some <==> other@ <= self@,
            r matches Some(d) ==> d@ == self@ - other@,
    {
        proof {
            use_type_invariant(self);
            use_type_invariant(&other);
        }
        if self.secs < other.secs || (self.secs == other.secs && self.nanos < other.nanos) {
            return None;
        }
        if self.nanos >= other.nanos {
            Some(Duration { secs: self.secs - other.secs, nanos: self.nanos - other.nanos })
        } else {
            Some(
                Duration {
                    secs: self.secs - other.secs - 1,
                    nanos: self.nanos + NANOS_PER_SEC - other.nanos,
                },
            )
        }
    }
}

} // verus!
