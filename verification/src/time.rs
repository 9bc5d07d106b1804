//! Spans of time and points on a clock, as plain values.

use vstd::prelude::*;

verus! {

/// A span of time: whole seconds and the nanoseconds behind them.
#[derive(Debug, Clone, Copy, PartialEq, Eq, Structural)]
pub struct Duration {
    secs: u64,
    nanos: u32,
}

/// The text of `std::time::Duration`'s `Debug` form.
pub uninterp spec fn duration_text(secs: nat, nanos: nat) -> Seq<char>;

/// The text of a span of `total` nanoseconds, such as `5s` or `1.5ms`.
pub open spec fn span_text(total: nat) -> Seq<char> {
    duration_text(total / 1_000_000_000, total % 1_000_000_000)
}

/// `std::time::Duration` in its `Debug` form, which depends on the seconds
/// and nanoseconds alone.
#[verifier::external_body]
fn duration_debug(secs: u64, nanos: u32) -> (s: String)
    requires
        nanos < 1_000_000_000,
    ensures
        s@ == duration_text(secs as nat, nanos as nat),
{
    format!("{:?}", std::time::Duration::new(secs, nanos))
}

impl Duration {
    #[verifier::type_invariant]
    spec fn nanos_in_second(self) -> bool {
        self.nanos < 1_000_000_000
    }

    /// The whole span in nanoseconds.
    pub closed spec fn total(self) -> nat {
        (self.secs * 1_000_000_000 + self.nanos) as nat
    }

    /// The span as text, such as `5s` or `1.5ms`.
    pub open spec fn text(self) -> Seq<char> {
        span_text(self.total())
    }

    /// The span of `nanos` nanoseconds behind `secs` seconds. `None` unless
    /// the nanoseconds are less than a second.
    pub fn new(secs: u64, nanos: u32) -> (r: Option<Duration>)
        ensures
            r is Some <==> nanos < 1_000_000_000,
            r matches Some(d) ==> d.total() == secs * 1_000_000_000 + nanos,
    {
        if nanos < 1_000_000_000 {
            Some(Duration { secs, nanos })
        } else {
            None
        }
    }

    /// The whole seconds of the span.
    pub fn as_secs(&self) -> (r: u64)
        ensures
            r == self.total() / 1_000_000_000,
    {
        proof {
            use_type_invariant(self);
        }
        self.secs
    }

    /// The nanoseconds behind the whole seconds.
    pub fn subsec_nanos(&self) -> (r: u32)
        ensures
            r == self.total() % 1_000_000_000,
            r < 1_000_000_000,
    {
        proof {
            use_type_invariant(self);
        }
        self.nanos
    }

    /// The span of `secs` seconds.
    pub fn from_secs(secs: u64) -> (d: Duration)
        ensures
            d.total() == secs * 1_000_000_000,
    {
        Duration { secs, nanos: 0 }
    }

    /// The span of `ms` milliseconds.
    pub fn from_millis(ms: u64) -> (d: Duration)
        ensures
            d.total() == ms * 1_000_000,
    {
        Duration { secs: ms / 1000, nanos: (ms % 1000) as u32 * 1_000_000 }
    }

    pub fn is_zero(&self) -> (r: bool)
        ensures
            r == (self.total() == 0),
    {
        proof {
            use_type_invariant(self);
        }
        self.secs == 0 && self.nanos == 0
    }

    /// The shorter of the two spans.
    pub fn min(self, other: Duration) -> (d: Duration)
        ensures
            d == self || d == other,
            d.total() == if self.total() <= other.total() {
                self.total()
            } else {
                other.total()
            },
    {
        proof {
            use_type_invariant(&self);
            use_type_invariant(&other);
        }
        if self.secs < other.secs || (self.secs == other.secs && self.nanos <= other.nanos) {
            self
        } else {
            other
        }
    }

    /// Twice the span.
    pub fn doubled(self) -> (d: Duration)
        requires
            self.total() < 0x4000_0000_0000_0000 * 1_000_000_000,
        ensures
            d.total() == 2 * self.total(),
    {
        proof {
            use_type_invariant(&self);
        }
        if self.nanos >= 500_000_000 {
            Duration { secs: 2 * self.secs + 1, nanos: 2 * (self.nanos - 500_000_000) }
        } else {
            Duration { secs: 2 * self.secs, nanos: 2 * self.nanos }
        }
    }

    /// The time left until `deadline` when the clock reads `now`: zero once
    /// it has passed.
    pub fn left(deadline: Duration, now: Duration) -> (d: Duration)
        ensures
            d.total() == if deadline.total() >= now.total() {
                deadline.total() - now.total()
            } else {
                0
            },
    {
        proof {
            use_type_invariant(&deadline);
            use_type_invariant(&now);
        }
        if deadline.secs > now.secs || (deadline.secs == now.secs && deadline.nanos >= now.nanos) {
            if deadline.nanos >= now.nanos {
                Duration { secs: deadline.secs - now.secs, nanos: deadline.nanos - now.nanos }
            } else {
                Duration {
                    secs: deadline.secs - now.secs - 1,
                    nanos: (1_000_000_000 - now.nanos) + deadline.nanos,
                }
            }
        } else {
            Duration { secs: 0, nanos: 0 }
        }
    }

    /// The point on the clock `span` after `self`. `None` where the clock
    /// cannot hold it.
    pub fn after(self, span: Duration) -> (r: Option<Duration>)
        ensures
            r matches Some(d) ==> d.total() == self.total() + span.total(),
            r is None <==> self.total() + span.total() >= 0x1_0000_0000_0000_0000 * 1_000_000_000,
    {
        proof {
            use_type_invariant(&self);
            use_type_invariant(&span);
        }
        let carry: bool = self.nanos + span.nanos >= 1_000_000_000;
        let nanos: u32 = if carry {
            self.nanos + span.nanos - 1_000_000_000
        } else {
            self.nanos + span.nanos
        };
        match self.secs.checked_add(span.secs) {
            None => None,
            Some(secs) => if !carry {
                Some(Duration { secs, nanos })
            } else if secs < u64::MAX {
                Some(Duration { secs: secs + 1, nanos })
            } else {
                None
            },
        }
    }

    /// The span as text, such as `5s` or `1.5ms`.
    pub fn to_text(&self) -> (s: String)
        ensures
            s@ == self.text(),
    {
        proof {
            use_type_invariant(self);
        }
        duration_debug(self.secs, self.nanos)
    }
}

/// A point in time, as its distance from the Unix epoch.
#[derive(Debug, Clone, Copy, PartialEq, Eq)]
pub enum Timestamp {
    BeforeEpoch(Duration),
    AfterEpoch(Duration),
}

impl Timestamp {
    /// Milliseconds since the Unix epoch, zero for earlier times, in 64 bits.
    pub open spec fn millis(self) -> nat {
        match self {
            Timestamp::BeforeEpoch(_) => 0,
            Timestamp::AfterEpoch(d) => d.total() / 1_000_000 % 0x1_0000_0000_0000_0000,
        }
    }

    /// Milliseconds since the Unix epoch, zero for earlier times.
    pub fn epoch_ms(self) -> (ms: u64)
        ensures
            ms == self.millis(),
    {
        match self {
            Timestamp::BeforeEpoch(_) => 0,
            Timestamp::AfterEpoch(d) => {
                let secs: u64 = d.as_secs();
                let nanos: u32 = d.subsec_nanos();
                let ms: u128 = secs as u128 * 1000 + (nanos / 1_000_000) as u128;
                assert(d.total() / 1_000_000 == ms) by {
                    assert(d.total() == secs * 1_000_000_000 + nanos);
                }
                (ms % 0x1_0000_0000_0000_0000) as u64
            },
        }
    }
}

/// The milliseconds of a point in time are the whole ones that have passed
/// since the epoch, as long as 64 bits hold them, and none before it. Points
/// that are 2^64 milliseconds apart read the same.
pub proof fn lemma_millis_passed(t: Timestamp)
    ensures
        t matches Timestamp::BeforeEpoch(_) ==> t.millis() == 0,
        t matches Timestamp::AfterEpoch(d) ==> {
            &&& t.millis() < 0x1_0000_0000_0000_0000
            &&& d.total() < 0x1_0000_0000_0000_0000 * 1_000_000 ==> t.millis() * 1_000_000 <= d.total()
                < (t.millis() + 1) * 1_000_000
            &&& exists|k: nat|
                #![trigger k * 0x1_0000_0000_0000_0000]
                (t.millis() + k * 0x1_0000_0000_0000_0000) * 1_000_000 <= d.total() < (t.millis() + k
                    * 0x1_0000_0000_0000_0000 + 1) * 1_000_000
        },
{
    if let Timestamp::AfterEpoch(d) = t {
        let ms = d.total() / 1_000_000;
        let k = ms / 0x1_0000_0000_0000_0000;
        assert(t.millis() + k * 0x1_0000_0000_0000_0000 == ms);
    }
}

} // verus!
