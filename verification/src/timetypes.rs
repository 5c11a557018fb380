//! Millisecond time types: points, offsets and display intervals.

use vstd::prelude::*;

verus! {

/// A point in time: a signed count of milliseconds since an arbitrary zero.
#[derive(Clone, Copy, Debug, PartialEq, Eq, Hash, Structural)]
pub struct TimePoint {
    /// Milliseconds since zero; may be negative.
    pub msecs: i64,
}

/// A signed offset in milliseconds, added to a `TimePoint` to shift it.
#[derive(Clone, Copy, Debug, PartialEq, Eq, Hash, Structural)]
pub struct TimeDelta {
    /// Milliseconds of the offset; may be negative.
    pub msecs: i64,
}

/// The display interval of one subtitle line. A span read from a file may
/// have its end before its start.
#[derive(Clone, Copy, Debug, PartialEq, Eq, Hash, Structural)]
pub struct TimeSpan {
    /// When the line appears.
    pub start: TimePoint,
    /// When the line disappears.
    pub end: TimePoint,
}

impl View for TimePoint {
    type V = int;

    open spec fn view(&self) -> int {
        self.msecs as int
    }
}

impl View for TimeDelta {
    type V = int;

    open spec fn view(&self) -> int {
        self.msecs as int
    }
}

/// Whether `value` can be held in an `i64`.
pub open spec fn fits_i64(value: int) -> bool {
    i64::MIN <= value <= i64::MAX
}

impl TimePoint {
    /// The time point `msecs` milliseconds after zero.
    pub fn from_msecs(msecs: i64) -> (point: TimePoint)
        ensures
            point@ == msecs,
    {
        TimePoint { msecs }
    }

    /// The number of milliseconds since zero.
    pub fn msecs(&self) -> (msecs: i64)
        ensures
            msecs == self@,
    {
        self.msecs
    }

    /// Whether this point lies before zero.
    pub fn is_negative(&self) -> (negative: bool)
        ensures
            negative == (self@ < 0),
    {
        self.msecs < 0
    }

    /// This point moved by `delta`, or `None` where the result is no `i64`.
    pub fn checked_add(&self, delta: TimeDelta) -> (moved: Option<TimePoint>)
        ensures
            moved.is_some() == fits_i64(self@ + delta@),
            moved.is_some() ==> moved.unwrap()@ == self@ + delta@,
    {
        match self.msecs.checked_add(delta.msecs) {
            Some(msecs) => Some(TimePoint { msecs }),
            None => None,
        }
    }

    /// The offset that leads from `earlier` to this point, or `None` where
    /// it is no `i64`.
    pub fn checked_sub(&self, earlier: TimePoint) -> (distance: Option<TimeDelta>)
        ensures
            distance.is_some() == fits_i64(self@ - earlier@),
            distance.is_some() ==> distance.unwrap()@ == self@ - earlier@,
    {
        match self.msecs.checked_sub(earlier.msecs) {
            Some(msecs) => Some(TimeDelta { msecs }),
            None => None,
        }
    }
}

impl TimeDelta {
    /// The offset of `msecs` milliseconds.
    pub fn from_msecs(msecs: i64) -> (delta: TimeDelta)
        ensures
            delta@ == msecs,
    {
        TimeDelta { msecs }
    }

    /// The number of milliseconds of this offset.
    pub fn msecs(&self) -> (msecs: i64)
        ensures
            msecs == self@,
    {
        self.msecs
    }

    /// Whether this offset points backwards.
    pub fn is_negative(&self) -> (negative: bool)
        ensures
            negative == (self@ < 0),
    {
        self.msecs < 0
    }
}

impl TimeSpan {
    /// The span from `start` to `end`, taken as given.
    pub fn new(start: TimePoint, end: TimePoint) -> (span: TimeSpan)
        ensures
            span.start == start,
            span.end == end,
    {
        TimeSpan { start, end }
    }

    /// Whether the span does not end before it starts.
    pub open spec fn is_ordered(self) -> bool {
        self.start@ <= self.end@
    }

    /// The earlier of the two ends of the span.
    pub open spec fn earliest(self) -> int {
        if self.start@ <= self.end@ {
            self.start@
        } else {
            self.end@
        }
    }

    /// The later of the two ends of the span.
    pub open spec fn latest(self) -> int {
        if self.start@ <= self.end@ {
            self.end@
        } else {
            self.start@
        }
    }

    /// The earlier of the two ends of the span.
    pub fn earliest_point(&self) -> (point: TimePoint)
        ensures
            point@ == self.earliest(),
            point == self.start || point == self.end,
    {
        if self.start.msecs <= self.end.msecs {
            self.start
        } else {
            self.end
        }
    }

    /// The later of the two ends of the span.
    pub fn latest_point(&self) -> (point: TimePoint)
        ensures
            point@ == self.latest(),
            point == self.start || point == self.end,
    {
        if self.start.msecs <= self.end.msecs {
            self.end
        } else {
            self.start
        }
    }

    /// What the span becomes when both ends move by `delta` milliseconds.
    pub open spec fn shifted(self, delta: int) -> (int, int) {
        (self.start@ + delta, self.end@ + delta)
    }

    /// This span with both ends moved by `delta`, or `None` where one of the
    /// moved ends is no `i64`.
    pub fn checked_add(&self, delta: TimeDelta) -> (moved: Option<TimeSpan>)
        ensures
            moved.is_some() == (fits_i64(self.start@ + delta@) && fits_i64(self.end@ + delta@)),
            moved.is_some() ==> (moved.unwrap().start@, moved.unwrap().end@) == self.shifted(
                delta@,
            ),
    {
        match (self.start.checked_add(delta), self.end.checked_add(delta)) {
            (Some(start), Some(end)) => Some(TimeSpan { start, end }),
            _ => None,
        }
    }
}

} // verus!
