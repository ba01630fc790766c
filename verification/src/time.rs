//! Timestamps with millisecond resolution, and validated durations.

use vstd::prelude::*;

verus! {

/// The resolution of a [`Timestamp`]: the number of ticks in one second.
pub const MILLIS_PER_SECOND: u64 = 1000;

/// The number of seconds in one minute.
pub const SECONDS_PER_MINUTE: u64 = 60;

/// The number of ticks in one minute.
pub const MILLIS_PER_MINUTE: u64 = 60000;

/// A point on the score's clock, in milliseconds since the start.
#[derive(Clone, Copy, Debug, PartialEq, Eq, PartialOrd, Ord, Hash, Structural)]
pub struct Timestamp {
    pub millis: u64,
}

impl Timestamp {
    /// The start of the score.
    pub fn new() -> (t: Timestamp)
        ensures
            t.millis == 0,
    {
        Timestamp { millis: 0 }
    }

    /// The timestamp of `millis` milliseconds.
    pub fn from_millis(millis: u64) -> (t: Timestamp)
        ensures
            t.millis == millis,
    {
        Timestamp { millis }
    }

    /// The number of milliseconds that `minutes:seconds.millis` stands for.
    pub open spec fn spec_total(minutes: nat, seconds: nat, millis: nat) -> nat {
        minutes * 60000 + seconds * 1000 + millis
    }

    /// The timestamp `minutes:seconds.millis`, or `None` if it does not fit
    /// in the clock's range.
    pub fn from_parts(minutes: u64, seconds: u64, millis: u64) -> (t: Option<Timestamp>)
        ensures
            Self::spec_total(minutes as nat, seconds as nat, millis as nat) <= u64::MAX ==> t
                == Some(
                Timestamp {
                    millis: Self::spec_total(minutes as nat, seconds as nat, millis as nat) as u64,
                },
            ),
            Self::spec_total(minutes as nat, seconds as nat, millis as nat) > u64::MAX ==> t
                is None,
    {
        let from_minutes = match minutes.checked_mul(MILLIS_PER_MINUTE) {
            Some(v) => v,
            None => {
                return None;
            },
        };
        let from_seconds = match seconds.checked_mul(MILLIS_PER_SECOND) {
            Some(v) => v,
            None => {
                return None;
            },
        };
        let whole = match from_minutes.checked_add(from_seconds) {
            Some(v) => v,
            None => {
                return None;
            },
        };
        match whole.checked_add(millis) {
            Some(v) => Some(Timestamp { millis: v }),
            None => None,
        }
    }

    /// The number of milliseconds since the start of the score.
    pub fn as_millis(&self) -> (m: u64)
        ensures
            m == self.millis,
    {
        self.millis
    }

    /// The whole minutes of this timestamp.
    pub fn minutes(&self) -> (m: u64)
        ensures
            m == self.millis / 60000,
    {
        self.millis / MILLIS_PER_MINUTE
    }

    /// The whole seconds within the current minute.
    pub fn seconds(&self) -> (s: u64)
        ensures
            s == (self.millis / 1000) % 60,
            s < 60,
    {
        (self.millis / MILLIS_PER_SECOND) % SECONDS_PER_MINUTE
    }

    /// The milliseconds within the current second.
    pub fn subsec_millis(&self) -> (m: u64)
        ensures
            m == self.millis % 1000,
            m < 1000,
    {
        self.millis % MILLIS_PER_SECOND
    }

    /// One second after `self`, or the end of the clock's range if that is
    /// nearer.
    pub open spec fn spec_one_second_later(self) -> Timestamp {
        if self.millis + 1000 <= u64::MAX {
            Timestamp { millis: (self.millis + 1000) as u64 }
        } else {
            Timestamp { millis: u64::MAX }
        }
    }

    /// One second after `self`; the clock stops at the end of its range.
    pub fn one_second_later(&self) -> (t: Timestamp)
        ensures
            t == self.spec_one_second_later(),
    {
        Timestamp { millis: self.millis.saturating_add(MILLIS_PER_SECOND) }
    }

    /// Whether `self` comes strictly before `other`.
    pub fn is_before(&self, other: &Timestamp) -> (b: bool)
        ensures
            b == (self.millis < other.millis),
    {
        self.millis < other.millis
    }
}

/// The error of [`Duration::new`]: the start does not come before the end.
#[derive(Clone, Copy, Debug, PartialEq, Eq, Structural)]
pub struct DurationInvalid;

/// A span of time whose start comes strictly before its end.
#[derive(Clone, Copy, Debug, PartialEq, Eq)]
pub struct Duration {
    start: Timestamp,
    end: Timestamp,
}

impl Duration {
    #[verifier::type_invariant]
    spec fn ordered(self) -> bool {
        self.start.millis < self.end.millis
    }

    /// The first instant of the span.
    pub closed spec fn spec_start(&self) -> Timestamp {
        self.start
    }

    /// The instant at which the span is over.
    pub closed spec fn spec_end(&self) -> Timestamp {
        self.end
    }

    /// The invariant of every duration that `new` has made.
    pub open spec fn wf(&self) -> bool {
        self.spec_start().millis < self.spec_end().millis
    }

    /// The span from `start` to `end`. It exists only where `start` comes
    /// strictly before `end`.
    pub fn new(start: Timestamp, end: Timestamp) -> (r: Result<Duration, DurationInvalid>)
        ensures
            start.millis < end.millis ==> r is Ok && r->Ok_0.spec_start() == start
                && r->Ok_0.spec_end() == end && r->Ok_0.wf(),
            start.millis >= end.millis ==> r == Err::<Duration, DurationInvalid>(DurationInvalid),
    {
        if start.millis < end.millis {
            Ok(Duration { start, end })
        } else {
            Err(DurationInvalid)
        }
    }

    /// The first instant of the span.
    #[verifier::when_used_as_spec(spec_start)]
    pub fn start(&self) -> (t: Timestamp)
        ensures
            t == self.spec_start(),
            self.wf(),
    {
        proof {
            use_type_invariant(self);
        }
        self.start
    }

    /// The instant at which the span is over.
    #[verifier::when_used_as_spec(spec_end)]
    pub fn end(&self) -> (t: Timestamp)
        ensures
            t == self.spec_end(),
            self.wf(),
    {
        proof {
            use_type_invariant(self);
        }
        self.end
    }

    /// The length of the span in milliseconds; it is never zero.
    pub fn length_millis(&self) -> (m: u64)
        ensures
            m == self.spec_end().millis - self.spec_start().millis,
            m > 0,
    {
        proof {
            use_type_invariant(self);
        }
        self.end.millis - self.start.millis
    }

    /// Whether `t` lies in the span, the start included and the end not.
    pub fn contains(&self, t: Timestamp) -> (b: bool)
        ensures
            b == (self.spec_start().millis <= t.millis < self.spec_end().millis),
    {
        self.start.millis <= t.millis && t.millis < self.end.millis
    }
}

/// The start of every valid duration comes strictly before its end.
pub proof fn lemma_duration_ordered(d: Duration)
    requires
        d.wf(),
    ensures
        d.spec_start().millis < d.spec_end().millis,
{
}

} // verus!
