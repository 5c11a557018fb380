//! The corrected spans: each line of the track moved by its offset.

use crate::corrector::paired_len;
use crate::timetypes::{fits_i64, TimeDelta, TimePoint, TimeSpan};
use vstd::prelude::*;

verus! {

/// Whether both ends of each line, moved by the offset of the line, are
/// `i64`.
pub open spec fn shifts_fit(timespans: Seq<TimeSpan>, deltas: Seq<TimeDelta>) -> bool {
    forall|i: int|
        0 <= i < paired_len(timespans, deltas) ==> fits_i64(
            (#[trigger] timespans[i]).start@ + deltas[i]@,
        ) && fits_i64(timespans[i].end@ + deltas[i]@)
}

/// The corrected spans, one for each line that has a span and an offset.
/// Each is what it should be where `shifts_fit` holds.
pub open spec fn shifted_spans(timespans: Seq<TimeSpan>, deltas: Seq<TimeDelta>) -> Seq<TimeSpan> {
    Seq::new(
        paired_len(timespans, deltas) as nat,
        |i: int|
            TimeSpan {
                start: TimePoint { msecs: (timespans[i].start@ + deltas[i]@) as i64 },
                end: TimePoint { msecs: (timespans[i].end@ + deltas[i]@) as i64 },
            },
    )
}

/// One corrected span for each line, in the order of the lines: the span of
/// the line with both ends moved by the offset of the line.
pub fn shifted_timespans(timespans: &[TimeSpan], deltas: &[TimeDelta]) -> (shifted: Vec<TimeSpan>)
    requires
        shifts_fit(timespans@, deltas@),
    ensures
        shifted@ == shifted_spans(timespans@, deltas@),
        forall|i: int|
            0 <= i < shifted@.len() ==> ((#[trigger] shifted@[i]).start@, shifted@[i].end@)
                == timespans@[i].shifted(deltas@[i]@),
{
    let n: usize = if timespans.len() <= deltas.len() {
        timespans.len()
    } else {
        deltas.len()
    };
    let mut shifted: Vec<TimeSpan> = Vec::with_capacity(n);
    let mut k: usize = 0;
    while k < n
        invariant
            shifts_fit(timespans@, deltas@),
            n == paired_len(timespans@, deltas@),
            k <= n,
            shifted@.len() == k,
            forall|i: int|
                0 <= i < k ==> ((#[trigger] shifted@[i]).start@, shifted@[i].end@)
                    == timespans@[i].shifted(deltas@[i]@),
        decreases n - k,
    {
        let timespan = timespans[k];
        let delta = deltas[k];
        shifted.push(
            TimeSpan::new(
                TimePoint::from_msecs(timespan.start.msecs + delta.msecs),
                TimePoint::from_msecs(timespan.end.msecs + delta.msecs),
            ),
        );
        k += 1;
    }
    shifted
}

/// As `shifted_timespans`, for any lines: `None` where a moved end is no
/// `i64`.
pub fn checked_shifted_timespans(timespans: &[TimeSpan], deltas: &[TimeDelta]) -> (shifted: Option<
    Vec<TimeSpan>,
>)
    ensures
        shifted.is_some() == shifts_fit(timespans@, deltas@),
        shifted.is_some() ==> shifted.unwrap()@ == shifted_spans(timespans@, deltas@),
        shifted.is_some() ==> forall|i: int|
            0 <= i < paired_len(timespans@, deltas@) ==> (
                (#[trigger] shifted.unwrap()@[i]).start@,
                shifted.unwrap()@[i].end@,
            ) == timespans@[i].shifted(deltas@[i]@),
{
    let n: usize = if timespans.len() <= deltas.len() {
        timespans.len()
    } else {
        deltas.len()
    };
    let mut k: usize = 0;
    while k < n
        invariant
            n == paired_len(timespans@, deltas@),
            k <= n,
            forall|i: int|
                0 <= i < k ==> fits_i64((#[trigger] timespans@[i]).start@ + deltas@[i]@)
                    && fits_i64(timespans@[i].end@ + deltas@[i]@),
        decreases n - k,
    {
        if timespans[k].checked_add(deltas[k]).is_none() {
            return None;
        }
        k += 1;
    }
    Some(shifted_timespans(timespans, deltas))
}

} // verus!
