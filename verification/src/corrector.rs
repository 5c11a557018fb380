//! Offsets that would move the start of a line before zero. Many formats
//! cannot hold a negative time stamp, so such an offset is replaced by the
//! one that moves the start of its line to zero, unless the caller allows
//! negative time stamps.

use crate::timetypes::{fits_i64, TimeDelta, TimeSpan};
use vstd::prelude::*;

verus! {

/// Whether the offset `delta` moves a line that starts at `start` before
/// zero.
pub open spec fn is_violation(delta: int, start: int) -> bool {
    delta + start < 0
}

/// The offset that is applied in place of `delta` to a line that starts at
/// `start`: the one that moves the start to zero where `delta` would move it
/// before zero.
pub open spec fn truncated_delta(delta: int, start: int) -> int {
    if is_violation(delta, start) {
        0 - start
    } else {
        delta
    }
}

/// The number of lines that have both a span and an offset.
pub open spec fn paired_len(timespans: Seq<TimeSpan>, deltas: Seq<TimeDelta>) -> int {
    if timespans.len() <= deltas.len() {
        timespans.len() as int
    } else {
        deltas.len() as int
    }
}

/// Whether some offset moves the start of its line before zero.
pub open spec fn has_violation(timespans: Seq<TimeSpan>, deltas: Seq<TimeDelta>) -> bool {
    exists|i: int|
        0 <= i < paired_len(timespans, deltas) && is_violation(
            (#[trigger] deltas[i])@,
            timespans[i].start@,
        )
}

/// Whether each truncated offset is an `i64`. It is unless a line starts at
/// the smallest `i64`, which no offset can move to zero.
pub open spec fn truncation_fits(timespans: Seq<TimeSpan>, deltas: Seq<TimeDelta>) -> bool {
    forall|i: int|
        0 <= i < paired_len(timespans, deltas) ==> fits_i64(
            truncated_delta((#[trigger] deltas[i])@, timespans[i].start@),
        )
}

/// The offsets that are applied in place of `deltas`, one for each line that
/// has a span and an offset. Each is what it should be where
/// `truncation_fits` holds.
pub open spec fn truncated_deltas(timespans: Seq<TimeSpan>, deltas: Seq<TimeDelta>) -> Seq<
    TimeDelta,
> {
    Seq::new(
        paired_len(timespans, deltas) as nat,
        |i: int| TimeDelta { msecs: truncated_delta(deltas[i]@, timespans[i].start@) as i64 },
    )
}

/// Whether applying the offsets would write a negative start.
pub fn writes_negative_timespans(timespans: &[TimeSpan], deltas: &[TimeDelta]) -> (negative: bool)
    ensures
        negative == has_violation(timespans@, deltas@),
{
    let n: usize = if timespans.len() <= deltas.len() {
        timespans.len()
    } else {
        deltas.len()
    };
    let mut k: usize = 0;
    while k < n
        invariant
            n == paired_len(timespans@, deltas@),
            k <= n,
            forall|i: int|
                0 <= i < k ==> !is_violation((#[trigger] deltas@[i])@, timespans@[i].start@),
        decreases n - k,
    {
        if moves_before_zero(deltas[k], timespans[k]) {
            return true;
        }
        k += 1;
    }
    false
}

/// Whether `delta` moves the start of `timespan` before zero.
pub fn moves_before_zero(delta: TimeDelta, timespan: TimeSpan) -> (negative: bool)
    ensures
        negative == is_violation(delta@, timespan.start@),
{
    // added as `i128`: the sum may be too large for an `i64`
    delta.msecs as i128 + (timespan.start.msecs as i128) < 0
}

/// One offset for each line: the given one, or, where that would move the
/// start of the line before zero, the one that moves it to zero. Each line
/// is judged by itself, so lines that came with one offset may leave with
/// different ones.
pub fn get_truncated_deltas(timespans: &[TimeSpan], deltas: Vec<TimeDelta>) -> (truncated: Vec<
    TimeDelta,
>)
    requires
        truncation_fits(timespans@, deltas@),
    ensures
        truncated@ == truncated_deltas(timespans@, deltas@),
        forall|i: int|
            0 <= i < truncated@.len() ==> (#[trigger] truncated@[i])@ == truncated_delta(
                deltas@[i]@,
                timespans@[i].start@,
            ),
        forall|i: int| 0 <= i < truncated@.len() ==> timespans@[i].start@ + truncated@[i]@ >= 0,
{
    let n: usize = if timespans.len() <= deltas.len() {
        timespans.len()
    } else {
        deltas.len()
    };
    let mut truncated: Vec<TimeDelta> = Vec::with_capacity(n);
    let mut k: usize = 0;
    while k < n
        invariant
            truncation_fits(timespans@, deltas@),
            n == paired_len(timespans@, deltas@),
            k <= n,
            truncated@.len() == k,
            forall|i: int|
                0 <= i < k ==> (#[trigger] truncated@[i])@ == truncated_delta(
                    deltas@[i]@,
                    timespans@[i].start@,
                ),
        decreases n - k,
    {
        let delta = deltas[k];
        let timespan = timespans[k];
        if moves_before_zero(delta, timespan) {
            truncated.push(TimeDelta::from_msecs(0 - timespan.start.msecs));
        } else {
            truncated.push(delta);
        }
        k += 1;
    }
    truncated
}

/// As `get_truncated_deltas`, for any lines: `None` where a line that needs
/// a new offset starts at the smallest `i64`.
pub fn checked_truncated_deltas(timespans: &[TimeSpan], deltas: Vec<TimeDelta>) -> (truncated:
    Option<Vec<TimeDelta>>)
    ensures
        truncated.is_some() == truncation_fits(timespans@, deltas@),
        truncated.is_some() ==> truncated.unwrap()@ == truncated_deltas(timespans@, deltas@),
        truncated.is_some() ==> forall|i: int|
            0 <= i < paired_len(timespans@, deltas@) ==> (#[trigger] truncated.unwrap()@[i])@
                == truncated_delta(deltas@[i]@, timespans@[i].start@),
        truncated.is_some() ==> forall|i: int|
            0 <= i < paired_len(timespans@, deltas@) ==> timespans@[i].start@
                + truncated.unwrap()@[i]@ >= 0,
{
    let n: usize = if timespans.len() <= deltas.len() {
        timespans.len()
    } else {
        deltas.len()
    };
    let mut k: usize = 0;
    while k < n
        invariant
            n == paired_len(timespans@, deltas@),
            k <= n,
            forall|i: int|
                0 <= i < k ==> fits_i64(
                    truncated_delta((#[trigger] deltas@[i])@, timespans@[i].start@),
                ),
        decreases n - k,
    {
        if timespans[k].start.msecs == i64::MIN {
            assert(!fits_i64(truncated_delta(deltas@[k as int]@, timespans@[k as int].start@)));
            return None;
        }
        k += 1;
    }
    Some(get_truncated_deltas(timespans, deltas))
}

/// With truncated offsets no line starts before zero.
pub proof fn lemma_truncation_prevents_negative_start(delta: int, start: int)
    ensures
        start + truncated_delta(delta, start) >= 0,
        !is_violation(delta, start) ==> truncated_delta(delta, start) == delta,
        is_violation(delta, start) ==> start + truncated_delta(delta, start) == 0,
{
}

} // verus!
