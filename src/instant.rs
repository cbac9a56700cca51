use vstd::prelude::*;
use core::cmp::Ordering;

verus! {

/// Direction of an elapsed-time magnitude with respect to the reference epoch
/// (1900-01-01T00:00:00): `Past` is strictly before it, `Present` at or after it.
#[derive(Clone, Copy, Debug, PartialEq, Eq, Structural)]
pub enum Era {
    Past,
    Present,
}

/// Number of nanoseconds in one second.
pub const NANOS_PER_SECOND: u32 = 1_000_000_000;

/// A point on a uniform timescale: a magnitude of elapsed time from the
/// reference epoch, in the direction given by `era`. It carries no
/// leap-second information.
#[derive(Clone, Copy, Debug, PartialEq, Eq, Structural)]
pub struct Instant {
    pub seconds: u64,
    pub nanos: u32,
    pub era: Era,
}

/// A non-negative span of time.
#[derive(Clone, Copy, Debug, PartialEq, Eq, Structural)]
pub struct Duration {
    pub seconds: u64,
    pub nanos: u32,
}

impl Duration {
    /// Builds a duration from its parts.
    pub fn new(seconds: u64, nanos: u32) -> (r: Duration)
        requires
            nanos < NANOS_PER_SECOND,
        ensures
            r == (Duration { seconds, nanos }),
    {
        Duration { seconds, nanos }
    }

    /// Length in nanoseconds.
    pub open spec fn total_nanos(self) -> int {
        self.seconds * NANOS_PER_SECOND + self.nanos
    }
}

/// Signed distance from the epoch in nanoseconds: negative in the past era.
pub open spec fn signed_nanos(i: Instant) -> int {
    let magnitude = i.seconds * NANOS_PER_SECOND + i.nanos;
    match i.era {
        Era::Past => -magnitude,
        Era::Present => magnitude,
    }
}

/// Compares two (seconds, nanoseconds) pairs.
pub open spec fn magnitude_cmp(s1: u64, n1: u32, s2: u64, n2: u32) -> Ordering {
    if s1 < s2 || (s1 == s2 && n1 < n2) {
        Ordering::Less
    } else if s1 == s2 && n1 == n2 {
        Ordering::Equal
    } else {
        Ordering::Greater
    }
}

/// Elapsed-time order: every past instant precedes every present one; in the
/// past era a larger magnitude is earlier.
pub open spec fn instant_cmp(a: Instant, b: Instant) -> Ordering {
    match (a.era, b.era) {
        (Era::Past, Era::Present) => Ordering::Less,
        (Era::Present, Era::Past) => Ordering::Greater,
        (Era::Present, Era::Present) => magnitude_cmp(a.seconds, a.nanos, b.seconds, b.nanos),
        (Era::Past, Era::Past) => magnitude_cmp(b.seconds, b.nanos, a.seconds, a.nanos),
    }
}

/// Compares two (seconds, nanoseconds) pairs.
fn cmp_magnitude(s1: u64, n1: u32, s2: u64, n2: u32) -> (r: Ordering)
    ensures
        r == magnitude_cmp(s1, n1, s2, n2),
{
    if s1 < s2 || (s1 == s2 && n1 < n2) {
        Ordering::Less
    } else if s1 == s2 && n1 == n2 {
        Ordering::Equal
    } else {
        Ordering::Greater
    }
}

/// Elapsed-time order of instants. It may disagree with the calendar order of
/// the values they come from near a leap second.
impl PartialOrd for Instant {
    fn partial_cmp(&self, other: &Instant) -> (r: Option<Ordering>) {
        match (self.era, other.era) {
            (Era::Past, Era::Present) => Some(Ordering::Less),
            (Era::Present, Era::Past) => Some(Ordering::Greater),
            (Era::Present, Era::Present) => Some(
                cmp_magnitude(self.seconds, self.nanos, other.seconds, other.nanos),
            ),
            (Era::Past, Era::Past) => Some(
                cmp_magnitude(other.seconds, other.nanos, self.seconds, self.nanos),
            ),
        }
    }
}

impl vstd::std_specs::cmp::PartialOrdSpecImpl for Instant {
    open spec fn obeys_partial_cmp_spec() -> bool {
        true
    }

    open spec fn partial_cmp_spec(&self, other: &Instant) -> Option<Ordering> {
        Some(instant_cmp(*self, *other))
    }
}

impl Instant {
    /// An instant is well formed when its sub-second part is below one second.
    pub open spec fn wf(self) -> bool {
        self.nanos < NANOS_PER_SECOND
    }

    /// Builds an instant from its parts.
    pub fn new(seconds: u64, nanos: u32, era: Era) -> (r: Instant)
        requires
            nanos < NANOS_PER_SECOND,
        ensures
            r == (Instant { seconds, nanos, era }),
            r.wf(),
    {
        Instant { seconds, nanos, era }
    }

    /// Whole seconds elapsed from the epoch.
    pub fn secs(&self) -> (r: u64)
        ensures
            r == self.seconds,
    {
        self.seconds
    }

    /// Sub-second part, in nanoseconds.
    pub fn nanos(&self) -> (r: u32)
        ensures
            r == self.nanos,
    {
        self.nanos
    }

    /// Direction with respect to the epoch.
    pub fn era(&self) -> (r: Era)
        ensures
            r == self.era,
    {
        self.era
    }
    /// The instant `d` later. Crossing the epoch moves it from the past era to
    /// the present one; the epoch itself is in the present era.
    pub fn add_duration(self, d: Duration) -> (r: Instant)
        requires
            self.wf(),
            d.nanos < NANOS_PER_SECOND,
            signed_nanos(self) + d.total_nanos() < (u64::MAX as int + 1) * NANOS_PER_SECOND,
        ensures
            r.wf(),
            signed_nanos(r) == signed_nanos(self) + d.total_nanos(),
            signed_nanos(r) == 0 ==> r.era == Era::Present,
    {
        let magnitude: i128 = self.seconds as i128 * 1_000_000_000 + self.nanos as i128;
        let start: i128 = match self.era {
            Era::Past => -magnitude,
            Era::Present => magnitude,
        };
        let total: i128 = start + (d.seconds as i128 * 1_000_000_000 + d.nanos as i128);
        if total >= 0 {
            let seconds = (total / 1_000_000_000) as u64;
            let nanos = (total % 1_000_000_000) as u32;
            Instant { seconds, nanos, era: Era::Present }
        } else {
            let back: i128 = -total;
            let seconds = (back / 1_000_000_000) as u64;
            let nanos = (back % 1_000_000_000) as u32;
            Instant { seconds, nanos, era: Era::Past }
        }
    }
}

} // verus!
