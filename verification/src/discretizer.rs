//! Conversion between millisecond time and the whole units in which an
//! alignment is searched. One unit is `interval` milliseconds long; a larger
//! interval gives a coarser and smaller search.

use crate::timetypes::{fits_i64, TimeDelta, TimePoint, TimeSpan};
use vstd::arithmetic::div_mod::{
    lemma_div_multiples_vanish, lemma_fundamental_div_mod, lemma_fundamental_div_mod_converse_div,
    lemma_mod_bound, lemma_mod_multiples_basic,
};
use vstd::arithmetic::mul::lemma_mul_is_commutative;
use vstd::prelude::*;

verus! {

/// A point in time in alignment units.
#[derive(Clone, Copy, Debug, PartialEq, Eq, Hash, Structural)]
pub struct AlgTimePoint {
    /// Units since zero; may be negative.
    pub units: i64,
}

/// A signed offset in alignment units.
#[derive(Clone, Copy, Debug, PartialEq, Eq, Hash, Structural)]
pub struct AlgTimeDelta {
    /// Units of the offset; may be negative.
    pub units: i64,
}

/// An interval in alignment units that never ends before it starts.
#[derive(Clone, Copy, Debug, PartialEq, Eq, Hash)]
pub struct AlgTimeSpan {
    start: AlgTimePoint,
    end: AlgTimePoint,
}

impl View for AlgTimePoint {
    type V = int;

    open spec fn view(&self) -> int {
        self.units as int
    }
}

impl View for AlgTimeDelta {
    type V = int;

    open spec fn view(&self) -> int {
        self.units as int
    }
}

impl View for AlgTimeSpan {
    type V = (int, int);

    /// The start and the end of the interval, in units.
    closed spec fn view(&self) -> (int, int) {
        (self.start@, self.end@)
    }
}

/// The unit in which the millisecond `t` falls: `t / interval`, rounded down.
pub open spec fn to_abstract(t: int, interval: int) -> int {
    t / interval
}

/// The length in milliseconds of `d` units.
pub open spec fn from_abstract(d: int, interval: int) -> int {
    d * interval
}

/// The two ends of `span` in units, the smaller one first.
pub open spec fn discretized_span(span: TimeSpan, interval: int) -> (int, int) {
    let start = to_abstract(span.start@, interval);
    let end = to_abstract(span.end@, interval);
    if end < start {
        (end, start)
    } else {
        (start, end)
    }
}

impl AlgTimePoint {
    /// The point `units` units after zero.
    pub fn from_units(units: i64) -> (point: AlgTimePoint)
        ensures
            point@ == units,
    {
        AlgTimePoint { units }
    }

    /// The number of units since zero.
    pub fn units(&self) -> (units: i64)
        ensures
            units == self@,
    {
        self.units
    }
}

impl AlgTimeDelta {
    /// The offset of `units` units.
    pub fn from_units(units: i64) -> (delta: AlgTimeDelta)
        ensures
            delta@ == units,
    {
        AlgTimeDelta { units }
    }

    /// The number of units of this offset.
    pub fn units(&self) -> (units: i64)
        ensures
            units == self@,
    {
        self.units
    }
}

impl AlgTimeSpan {
    #[verifier::type_invariant]
    spec fn ordered(self) -> bool {
        self.start@ <= self.end@
    }

    /// The interval between the two points, whichever of them comes first.
    pub fn new_safe(start: AlgTimePoint, end: AlgTimePoint) -> (span: AlgTimeSpan)
        ensures
            span@ == if end@ < start@ {
                (end@, start@)
            } else {
                (start@, end@)
            },
    {
        if end.units < start.units {
            AlgTimeSpan { start: end, end: start }
        } else {
            AlgTimeSpan { start, end }
        }
    }

    /// The first point of the interval.
    pub fn start(&self) -> (start: AlgTimePoint)
        ensures
            start@ == self@.0,
            start@ <= self@.1,
    {
        proof {
            use_type_invariant(self);
        }
        self.start
    }

    /// The point at which the interval ends.
    pub fn end(&self) -> (end: AlgTimePoint)
        ensures
            end@ == self@.1,
            self@.0 <= end@,
    {
        proof {
            use_type_invariant(self);
        }
        self.end
    }
}

/// The unit in which `t` falls.
pub fn timing_to_alg_timepoint(t: TimePoint, interval: i64) -> (point: AlgTimePoint)
    requires
        interval >= 1,
    ensures
        point@ == to_abstract(t@, interval as int),
{
    let units: i64 = if t.msecs >= 0 {
        t.msecs / interval
    } else {
        // rounds towards minus infinity, not towards zero
        let below: i64 = -(t.msecs + 1);
        let quotient: i64 = below / interval;
        proof {
            let d = interval as int;
            let remainder = (below as int) % d;
            lemma_fundamental_div_mod(below as int, d);
            lemma_mul_is_commutative(d, quotient as int);
            assert(t.msecs as int == (-(quotient as int) - 1) * d + (d - remainder - 1))
                by (nonlinear_arith)
                requires
                    below as int == -(t.msecs as int + 1),
                    below as int == (quotient as int) * d + remainder,
            ;
            lemma_fundamental_div_mod_converse_div(
                t.msecs as int,
                d,
                -(quotient as int) - 1,
                d - remainder - 1,
            );
        }
        -quotient - 1
    };
    AlgTimePoint { units }
}

/// The offset of `d` units in milliseconds.
pub fn alg_delta_to_delta(d: AlgTimeDelta, interval: i64) -> (delta: TimeDelta)
    requires
        interval >= 1,
        fits_i64(from_abstract(d@, interval as int)),
    ensures
        delta@ == from_abstract(d@, interval as int),
{
    TimeDelta { msecs: d.units * interval }
}

/// The offset of `d` units in milliseconds, or `None` where it is no `i64`.
pub fn checked_alg_delta_to_delta(d: AlgTimeDelta, interval: i64) -> (delta: Option<TimeDelta>)
    requires
        interval >= 1,
    ensures
        delta.is_some() == fits_i64(from_abstract(d@, interval as int)),
        delta.is_some() ==> delta.unwrap()@ == from_abstract(d@, interval as int),
{
    match d.units.checked_mul(interval) {
        Some(_) => Some(alg_delta_to_delta(d, interval)),
        None => None,
    }
}

/// One interval in units for each span of `v`, in the same order. Where the
/// rounding turns the two ends of a span around, they are put in order.
pub fn timings_to_alg_timespans(v: &[TimeSpan], interval: i64) -> (spans: Vec<AlgTimeSpan>)
    requires
        interval >= 1,
    ensures
        spans@.len() == v@.len(),
        forall|i: int|
            0 <= i < v@.len() ==> (#[trigger] spans@[i])@ == discretized_span(
                v@[i],
                interval as int,
            ),
{
    let mut spans: Vec<AlgTimeSpan> = Vec::with_capacity(v.len());
    let mut k: usize = 0;
    while k < v.len()
        invariant
            interval >= 1,
            k <= v@.len(),
            spans@.len() == k,
            forall|i: int|
                0 <= i < k ==> (#[trigger] spans@[i])@ == discretized_span(v@[i], interval as int),
        decreases v@.len() - k,
    {
        let timespan = v[k];
        spans.push(
            AlgTimeSpan::new_safe(
                timing_to_alg_timepoint(timespan.start, interval),
                timing_to_alg_timepoint(timespan.end, interval),
            ),
        );
        k += 1;
    }
    spans
}

/// Whether each offset of `v` is an `i64` when taken in milliseconds.
pub open spec fn deltas_fit(v: Seq<AlgTimeDelta>, interval: int) -> bool {
    forall|i: int| 0 <= i < v.len() ==> fits_i64(from_abstract(#[trigger] v[i]@, interval))
}

/// The offsets of `v` in milliseconds, in the same order. Each is what it
/// should be where `deltas_fit` holds.
pub open spec fn materialized_deltas(v: Seq<AlgTimeDelta>, interval: int) -> Seq<TimeDelta> {
    Seq::new(v.len(), |i: int| TimeDelta { msecs: from_abstract(v[i]@, interval) as i64 })
}

/// One offset in milliseconds for each offset of `v`, in the same order.
pub fn alg_deltas_to_timing_deltas(v: &[AlgTimeDelta], interval: i64) -> (deltas: Vec<TimeDelta>)
    requires
        interval >= 1,
        deltas_fit(v@, interval as int),
    ensures
        deltas@ == materialized_deltas(v@, interval as int),
        forall|i: int|
            0 <= i < v@.len() ==> (#[trigger] deltas@[i])@ == from_abstract(
                v@[i]@,
                interval as int,
            ),
{
    let mut deltas: Vec<TimeDelta> = Vec::with_capacity(v.len());
    let mut k: usize = 0;
    while k < v.len()
        invariant
            interval >= 1,
            deltas_fit(v@, interval as int),
            k <= v@.len(),
            deltas@.len() == k,
            forall|i: int|
                0 <= i < k ==> (#[trigger] deltas@[i])@ == from_abstract(v@[i]@, interval as int),
        decreases v@.len() - k,
    {
        deltas.push(alg_delta_to_delta(v[k], interval));
        k += 1;
    }
    deltas
}

/// As `alg_deltas_to_timing_deltas`, for any offsets: `None` where one of
/// them is no `i64` when taken in milliseconds.
pub fn checked_alg_deltas_to_timing_deltas(v: &[AlgTimeDelta], interval: i64) -> (deltas: Option<
    Vec<TimeDelta>,
>)
    requires
        interval >= 1,
    ensures
        deltas.is_some() == deltas_fit(v@, interval as int),
        deltas.is_some() ==> deltas.unwrap()@ == materialized_deltas(v@, interval as int),
        deltas.is_some() ==> forall|i: int|
            0 <= i < v@.len() ==> (#[trigger] deltas.unwrap()@[i])@ == from_abstract(
                v@[i]@,
                interval as int,
            ),
{
    let mut k: usize = 0;
    while k < v.len()
        invariant
            interval >= 1,
            k <= v@.len(),
            forall|i: int|
                0 <= i < k ==> fits_i64(from_abstract(#[trigger] v@[i]@, interval as int)),
        decreases v@.len() - k,
    {
        if checked_alg_delta_to_delta(v[k], interval).is_none() {
            return None;
        }
        k += 1;
    }
    Some(alg_deltas_to_timing_deltas(v, interval))
}

/// Taking a time to units and back loses less than one interval and never
/// moves the time forward. Nothing is lost just where the time is a multiple
/// of the interval.
pub proof fn lemma_discretization_round_trip(t: int, interval: int)
    requires
        interval >= 1,
    ensures
        0 <= t - from_abstract(to_abstract(t, interval), interval) < interval,
        (from_abstract(to_abstract(t, interval), interval) == t) == (t % interval == 0),
{
    lemma_fundamental_div_mod(t, interval);
    lemma_mod_bound(t, interval);
    lemma_mul_is_commutative(interval, t / interval);
}

/// An offset in units, taken in milliseconds, is a multiple of the interval,
/// and taking it back to units gives the same offset.
pub proof fn lemma_materialization_is_exact(d: int, interval: int)
    requires
        interval >= 1,
    ensures
        from_abstract(d, interval) % interval == 0,
        to_abstract(from_abstract(d, interval), interval) == d,
{
    lemma_mod_multiples_basic(d, interval);
    lemma_mul_is_commutative(interval, d);
    lemma_div_multiples_vanish(d, interval);
}

} // verus!
