//! Repair of spans that end before they start. Some files hold such lines;
//! their two ends are exchanged, and nothing is reported.

use crate::timetypes::TimeSpan;
use vstd::prelude::*;

verus! {

/// `span` with its two ends in order.
pub open spec fn normalized_span(span: TimeSpan) -> TimeSpan {
    if span.start@ <= span.end@ {
        span
    } else {
        TimeSpan { start: span.end, end: span.start }
    }
}

/// The spans of `spans`, each with its two ends in order.
pub open spec fn normalized(spans: Seq<TimeSpan>) -> Seq<TimeSpan> {
    Seq::new(spans.len(), |i: int| normalized_span(spans[i]))
}

/// The spans of `v` in the same order, each starting at the earlier and
/// ending at the later of its two ends.
pub fn corrected_timings(v: Vec<TimeSpan>) -> (timings: Vec<TimeSpan>)
    ensures
        timings@ == normalized(v@),
        forall|i: int| 0 <= i < timings@.len() ==> (#[trigger] timings@[i]).is_ordered(),
{
    let mut timings: Vec<TimeSpan> = Vec::with_capacity(v.len());
    let mut k: usize = 0;
    while k < v.len()
        invariant
            k <= v@.len(),
            timings@.len() == k,
            forall|i: int| 0 <= i < k ==> #[trigger] timings@[i] == normalized_span(v@[i]),
        decreases v@.len() - k,
    {
        let timespan = v[k];
        timings.push(TimeSpan::new(timespan.earliest_point(), timespan.latest_point()));
        k += 1;
    }
    timings
}

/// A repaired span is ordered and has the two ends of the span it was made
/// of; a span that is ordered already is left as it is.
pub proof fn lemma_normalized_span(span: TimeSpan)
    ensures
        normalized_span(span).is_ordered(),
        normalized_span(span).start@ == span.earliest(),
        normalized_span(span).end@ == span.latest(),
        span.is_ordered() ==> normalized_span(span) == span,
{
}

/// Repairing twice gives what repairing once gives, and every repaired span
/// is ordered.
pub proof fn lemma_normalization_is_idempotent(spans: Seq<TimeSpan>)
    ensures
        normalized(normalized(spans)) == normalized(spans),
        normalized(spans).len() == spans.len(),
        forall|i: int| 0 <= i < spans.len() ==> (#[trigger] normalized(spans)[i]).is_ordered(),
{
}

} // verus!
