//! Grouping of the lines of a track into blocks that were shifted together:
//! the lines are put in the order of their start, and each run of
//! neighbours with one and the same offset becomes a block. A later run with
//! the same offset is a block of its own.

use crate::discretizer::AlgTimeDelta;
use crate::timetypes::{fits_i64, TimeDelta, TimePoint, TimeSpan};
use vstd::prelude::*;
use vstd::seq_lib::{to_multiset_build, to_multiset_insert};

verus! {

/// A run of lines, ordered by start, that all got the offset `delta`.
#[derive(Clone, Debug, PartialEq, Eq)]
pub struct ShiftGroup {
    /// The offset of every line of the run.
    pub delta: AlgTimeDelta,
    /// The lines of the run in the order of their start.
    pub spans: Vec<TimeSpan>,
}

/// What is reported of a group: its offset, the number of its lines, and the
/// tightest bounds of their spans.
#[derive(Clone, Copy, Debug, PartialEq, Eq, Structural)]
pub struct GroupSummary {
    /// The offset of every line of the group.
    pub delta: AlgTimeDelta,
    /// The number of lines of the group.
    pub count: usize,
    /// The earliest start of a line of the group.
    pub min_start: TimePoint,
    /// The latest end of a line of the group.
    pub max_end: TimePoint,
}

impl View for ShiftGroup {
    type V = (AlgTimeDelta, Seq<TimeSpan>);

    open spec fn view(&self) -> (AlgTimeDelta, Seq<TimeSpan>) {
        (self.delta, self.spans@)
    }
}

/// The groups of `groups`, each as its offset and the sequence of its lines.
pub open spec fn groups_view(groups: Seq<ShiftGroup>) -> Seq<(AlgTimeDelta, Seq<TimeSpan>)> {
    Seq::new(groups.len(), |i: int| groups[i]@)
}

/// What a line is ordered by: the earlier of the two ends of its span.
pub open spec fn sort_key(pair: (AlgTimeDelta, TimeSpan)) -> int {
    pair.1.earliest()
}

/// `sorted` with `pair` put behind the last line that does not start later.
pub open spec fn insert_by_start(
    sorted: Seq<(AlgTimeDelta, TimeSpan)>,
    pair: (AlgTimeDelta, TimeSpan),
) -> Seq<(AlgTimeDelta, TimeSpan)>
    decreases sorted.len(),
{
    if sorted.len() == 0 {
        seq![pair]
    } else if sort_key(sorted.last()) <= sort_key(pair) {
        sorted.push(pair)
    } else {
        insert_by_start(sorted.drop_last(), pair).push(sorted.last())
    }
}

/// The lines of `pairs` in the order of their start; lines that start
/// together stay in the order they had.
pub open spec fn sorted_by_start(pairs: Seq<(AlgTimeDelta, TimeSpan)>) -> Seq<
    (AlgTimeDelta, TimeSpan),
>
    decreases pairs.len(),
{
    if pairs.len() == 0 {
        pairs
    } else {
        insert_by_start(sorted_by_start(pairs.drop_last()), pairs.last())
    }
}

/// Whether no line of `pairs` starts before a line that precedes it.
pub open spec fn is_sorted_by_start(pairs: Seq<(AlgTimeDelta, TimeSpan)>) -> bool {
    forall|i: int, j: int|
        0 <= i <= j < pairs.len() ==> sort_key(#[trigger] pairs[i]) <= sort_key(#[trigger] pairs[j])
}

/// The runs of `pairs`: a line joins the group before it where the two
/// offsets are equal, and opens a new group where they differ.
pub open spec fn group_runs(pairs: Seq<(AlgTimeDelta, TimeSpan)>) -> Seq<
    (AlgTimeDelta, Seq<TimeSpan>),
>
    decreases pairs.len(),
{
    if pairs.len() == 0 {
        Seq::empty()
    } else {
        let before = group_runs(pairs.drop_last());
        let (delta, span) = pairs.last();
        if before.len() > 0 && before.last().0 == delta {
            before.drop_last().push((delta, before.last().1.push(span)))
        } else {
            before.push((delta, seq![span]))
        }
    }
}

/// The lines of one group, each with the offset of the group.
pub open spec fn group_members(group: (AlgTimeDelta, Seq<TimeSpan>)) -> Seq<
    (AlgTimeDelta, TimeSpan),
> {
    Seq::new(group.1.len(), |i: int| (group.0, group.1[i]))
}

/// The lines of all groups, one group after the other.
pub open spec fn ungrouped(groups: Seq<(AlgTimeDelta, Seq<TimeSpan>)>) -> Seq<
    (AlgTimeDelta, TimeSpan),
>
    decreases groups.len(),
{
    if groups.len() == 0 {
        Seq::empty()
    } else {
        ungrouped(groups.drop_last()) + group_members(groups.last())
    }
}

/// The spans of `pairs`, without their offsets.
pub open spec fn spans_of(pairs: Seq<(AlgTimeDelta, TimeSpan)>) -> Seq<TimeSpan> {
    Seq::new(pairs.len(), |i: int| pairs[i].1)
}

/// Whether `summary` reports the group with the offset `group.0` and the
/// lines `group.1`: it counts the lines, its `min_start` is the start of one
/// of them and no line starts earlier, and its `max_end` is the end of one of
/// them and no line ends later.
pub open spec fn summarizes(summary: GroupSummary, group: (AlgTimeDelta, Seq<TimeSpan>)) -> bool {
    &&& summary.delta == group.0
    &&& summary.count == group.1.len()
    &&& exists|i: int| 0 <= i < group.1.len() && summary.min_start == (#[trigger] group.1[i]).start
    &&& forall|i: int|
        0 <= i < group.1.len() ==> summary.min_start@ <= (#[trigger] group.1[i]).start@
    &&& exists|i: int| 0 <= i < group.1.len() && summary.max_end == (#[trigger] group.1[i]).end
    &&& forall|i: int| 0 <= i < group.1.len() ==> summary.max_end@ >= (#[trigger] group.1[i]).end@
}

impl ShiftGroup {
    /// The report of this group.
    pub fn summary(&self) -> (summary: GroupSummary)
        requires
            self.spans@.len() > 0,
        ensures
            summarizes(summary, self@),
    {
        let mut min_start: TimePoint = self.spans[0].start;
        let mut max_end: TimePoint = self.spans[0].end;
        let mut k: usize = 1;
        while k < self.spans.len()
            invariant
                1 <= k <= self.spans@.len(),
                exists|i: int| 0 <= i < k && min_start == (#[trigger] self.spans@[i]).start,
                forall|i: int| 0 <= i < k ==> min_start@ <= (#[trigger] self.spans@[i]).start@,
                exists|i: int| 0 <= i < k && max_end == (#[trigger] self.spans@[i]).end,
                forall|i: int| 0 <= i < k ==> max_end@ >= (#[trigger] self.spans@[i]).end@,
            decreases self.spans@.len() - k,
        {
            let span = self.spans[k];
            if span.start.msecs < min_start.msecs {
                min_start = span.start;
            }
            if span.end.msecs > max_end.msecs {
                max_end = span.end;
            }
            k += 1;
        }
        GroupSummary { delta: self.delta, count: self.spans.len(), min_start, max_end }
    }
}

impl GroupSummary {
    /// The time from the earliest start to the latest end of the group, or
    /// `None` where it is no `i64`.
    pub fn length(&self) -> (length: Option<TimeDelta>)
        ensures
            length.is_some() == fits_i64(self.max_end@ - self.min_start@),
            length.is_some() ==> length.unwrap()@ == self.max_end@ - self.min_start@,
    {
        self.max_end.checked_sub(self.min_start)
    }
}

/// The lines of `v` ordered by the earlier end of their span. Lines with the
/// same key keep their order.
pub fn sort_by_start(v: Vec<(AlgTimeDelta, TimeSpan)>) -> (sorted: Vec<(AlgTimeDelta, TimeSpan)>)
    ensures
        sorted@ == sorted_by_start(v@),
{
    let mut sorted: Vec<(AlgTimeDelta, TimeSpan)> = Vec::with_capacity(v.len());
    let mut i: usize = 0;
    while i < v.len()
        invariant
            i <= v@.len(),
            sorted@ == sorted_by_start(v@.take(i as int)),
        decreases v@.len() - i,
    {
        let pair = v[i];
        let key: i64 = pair.1.earliest_point().msecs;
        let mut j: usize = sorted.len();
        proof {
            assert(sorted@.take(j as int) =~= sorted@);
        }
        while j > 0 && sorted[j - 1].1.earliest_point().msecs > key
            invariant
                j <= sorted@.len(),
                key == sort_key(pair),
                insert_by_start(sorted@, pair) == insert_by_start(sorted@.take(j as int), pair)
                    + sorted@.skip(j as int),
            decreases j,
        {
            proof {
                assert(sorted@.take(j as int).drop_last() =~= sorted@.take(j - 1));
            }
            j -= 1;
        }
        proof {
            assert(v@.take(i + 1).drop_last() =~= v@.take(i as int));
        }
        sorted.insert(j, pair);
        i += 1;
    }
    proof {
        assert(v@.take(v@.len() as int) =~= v@);
    }
    sorted
}

/// Groups neighbouring lines that have the same offset: the lines are put in
/// the order of their start, and each run of equal offsets becomes one group.
pub fn get_subtitle_delta_groups(v: Vec<(AlgTimeDelta, TimeSpan)>) -> (groups: Vec<ShiftGroup>)
    ensures
        groups_view(groups@) == group_runs(sorted_by_start(v@)),
        ungrouped(groups_view(groups@)) == sorted_by_start(v@),
        ungrouped(groups_view(groups@)).to_multiset() == v@.to_multiset(),
        forall|g: int| 0 <= g < groups@.len() ==> (#[trigger] groups@[g]).spans@.len() > 0,
        forall|g: int|
            0 < g < groups@.len() ==> (#[trigger] groups@[g]).delta != groups@[g - 1].delta,
{
    proof {
        lemma_grouping_coverage(v@);
        lemma_group_runs_cover(sorted_by_start(v@));
    }
    let ghost runs = group_runs(sorted_by_start(v@));
    let sorted = sort_by_start(v);
    let mut result: Vec<ShiftGroup> = Vec::new();
    if sorted.len() == 0 {
        return result;
    }
    let mut delta: AlgTimeDelta = sorted[0].0;
    let mut spans: Vec<TimeSpan> = Vec::new();
    spans.push(sorted[0].1);
    let mut i: usize = 1;
    proof {
        assert(group_runs(sorted@.take(1).drop_last()) =~= Seq::empty());
    }
    while i < sorted.len()
        invariant
            1 <= i <= sorted@.len(),
            group_runs(sorted@.take(i as int)) == groups_view(result@).push((delta, spans@)),
        decreases sorted@.len() - i,
    {
        let (next_delta, next_span) = sorted[i];
        proof {
            assert(sorted@.take(i + 1).drop_last() =~= sorted@.take(i as int));
        }
        if next_delta == delta {
            spans.push(next_span);
        } else {
            result.push(ShiftGroup { delta, spans });
            delta = next_delta;
            spans = Vec::new();
            spans.push(next_span);
        }
        i += 1;
    }
    proof {
        assert(sorted@.take(sorted@.len() as int) =~= sorted@);
    }
    result.push(ShiftGroup { delta, spans });
    proof {
        assert forall|g: int| 0 <= g < result@.len() implies (#[trigger] result@[g]).spans@.len()
            > 0 by {
            assert(runs[g] == result@[g]@);
        }
        assert forall|g: int| 0 < g < result@.len() implies (#[trigger] result@[g]).delta
            != result@[g - 1].delta by {
            assert(runs[g] == result@[g]@);
        }
    }
    result
}

/// Where `insert_by_start` puts `pair`: behind the last line of `sorted`
/// that does not start later.
pub open spec fn insertion_index(
    sorted: Seq<(AlgTimeDelta, TimeSpan)>,
    pair: (AlgTimeDelta, TimeSpan),
) -> int
    decreases sorted.len(),
{
    if sorted.len() == 0 {
        0
    } else if sort_key(sorted.last()) <= sort_key(pair) {
        sorted.len() as int
    } else {
        insertion_index(sorted.drop_last(), pair)
    }
}

/// The test that a line starts at `key`.
pub open spec fn starts_at(key: int) -> spec_fn((AlgTimeDelta, TimeSpan)) -> bool {
    |pair: (AlgTimeDelta, TimeSpan)| sort_key(pair) == key
}

/// `insert_by_start` puts the new line at `insertion_index`: every line
/// behind that place starts later, and the line before it does not.
pub proof fn lemma_insert_by_start_places(
    sorted: Seq<(AlgTimeDelta, TimeSpan)>,
    pair: (AlgTimeDelta, TimeSpan),
)
    ensures
        0 <= insertion_index(sorted, pair) <= sorted.len(),
        insert_by_start(sorted, pair) == sorted.insert(insertion_index(sorted, pair), pair),
        forall|k: int|
            insertion_index(sorted, pair) <= k < sorted.len() ==> sort_key(#[trigger] sorted[k])
                > sort_key(pair),
        insertion_index(sorted, pair) > 0 ==> sort_key(sorted[insertion_index(sorted, pair) - 1])
            <= sort_key(pair),
    decreases sorted.len(),
{
    if sorted.len() > 0 && sort_key(sorted.last()) > sort_key(pair) {
        let head = sorted.drop_last();
        let at = insertion_index(sorted, pair);
        lemma_insert_by_start_places(head, pair);
        assert forall|k: int| at <= k < sorted.len() implies sort_key(#[trigger] sorted[k])
            > sort_key(pair) by {
            if k < head.len() {
                assert(sorted[k] == head[k]);
            }
        }
    }
}

/// Putting a line into an ordered sequence leaves the sequence ordered.
proof fn lemma_insert_by_start_keeps_order(
    sorted: Seq<(AlgTimeDelta, TimeSpan)>,
    pair: (AlgTimeDelta, TimeSpan),
)
    requires
        is_sorted_by_start(sorted),
    ensures
        is_sorted_by_start(insert_by_start(sorted, pair)),
{
    lemma_insert_by_start_places(sorted, pair);
}

/// The output of the sort is ordered by start.
pub proof fn lemma_sorted_by_start_is_sorted(pairs: Seq<(AlgTimeDelta, TimeSpan)>)
    ensures
        is_sorted_by_start(sorted_by_start(pairs)),
    decreases pairs.len(),
{
    if pairs.len() > 0 {
        lemma_sorted_by_start_is_sorted(pairs.drop_last());
        lemma_insert_by_start_keeps_order(sorted_by_start(pairs.drop_last()), pairs.last());
    }
}

/// The sort neither loses nor repeats a line: its output holds each line as
/// often as its input, and so it holds each span as often.
pub proof fn lemma_sorted_by_start_is_permutation(pairs: Seq<(AlgTimeDelta, TimeSpan)>)
    ensures
        sorted_by_start(pairs).len() == pairs.len(),
        sorted_by_start(pairs).to_multiset() == pairs.to_multiset(),
        spans_of(sorted_by_start(pairs)).to_multiset() == spans_of(pairs).to_multiset(),
    decreases pairs.len(),
{
    if pairs.len() > 0 {
        let head = pairs.drop_last();
        let pair = pairs.last();
        let sorted = sorted_by_start(head);
        let at = insertion_index(sorted, pair);
        lemma_sorted_by_start_is_permutation(head);
        lemma_insert_by_start_places(sorted, pair);
        to_multiset_insert(sorted, at, pair);
        to_multiset_build(head, pair);
        assert(head.push(pair) =~= pairs);
        assert(spans_of(sorted.insert(at, pair)) =~= spans_of(sorted).insert(at, pair.1));
        to_multiset_insert(spans_of(sorted), at, pair.1);
        to_multiset_build(spans_of(head), pair.1);
        assert(spans_of(head).push(pair.1) =~= spans_of(pairs));
    }
}

/// Among the lines that start at `key`, putting in a new line changes
/// nothing but for the new line itself, which comes last.
proof fn lemma_insert_by_start_is_stable(
    sorted: Seq<(AlgTimeDelta, TimeSpan)>,
    pair: (AlgTimeDelta, TimeSpan),
    key: int,
)
    ensures
        insert_by_start(sorted, pair).filter(starts_at(key)) == if sort_key(pair) == key {
            sorted.filter(starts_at(key)).push(pair)
        } else {
            sorted.filter(starts_at(key))
        },
    decreases sorted.len(),
{
    reveal(Seq::filter);
    if sorted.len() == 0 {
        assert(seq![pair].drop_last() =~= sorted);
    } else if sort_key(sorted.last()) <= sort_key(pair) {
        assert(sorted.push(pair).drop_last() =~= sorted);
    } else {
        let head = sorted.drop_last();
        lemma_insert_by_start_is_stable(head, pair, key);
        assert(insert_by_start(head, pair).push(sorted.last()).drop_last() =~= insert_by_start(
            head,
            pair,
        ));
    }
}

/// The sort is stable: the lines that start at one and the same time come
/// out in the order in which they went in.
pub proof fn lemma_sorted_by_start_is_stable(pairs: Seq<(AlgTimeDelta, TimeSpan)>, key: int)
    ensures
        sorted_by_start(pairs).filter(starts_at(key)) == pairs.filter(starts_at(key)),
    decreases pairs.len(),
{
    reveal(Seq::filter);
    if pairs.len() > 0 {
        lemma_sorted_by_start_is_stable(pairs.drop_last(), key);
        lemma_insert_by_start_is_stable(sorted_by_start(pairs.drop_last()), pairs.last(), key);
    }
}

/// The groups hold the lines they were made of, in the same order; no group
/// is empty; and two neighbouring groups never have the same offset.
pub proof fn lemma_group_runs_cover(pairs: Seq<(AlgTimeDelta, TimeSpan)>)
    ensures
        ungrouped(group_runs(pairs)) == pairs,
        (group_runs(pairs).len() == 0) == (pairs.len() == 0),
        forall|g: int|
            0 <= g < group_runs(pairs).len() ==> (#[trigger] group_runs(pairs)[g]).1.len() > 0,
        forall|g: int|
            0 < g < group_runs(pairs).len() ==> (#[trigger] group_runs(pairs)[g]).0 != group_runs(
                pairs,
            )[g - 1].0,
        pairs.len() > 0 ==> group_runs(pairs).last().0 == pairs.last().0,
    decreases pairs.len(),
{
    if pairs.len() > 0 {
        let head = pairs.drop_last();
        let before = group_runs(head);
        let (delta, span) = pairs.last();
        let groups = group_runs(pairs);
        lemma_group_runs_cover(head);
        if before.len() > 0 && before.last().0 == delta {
            assert(groups.drop_last() =~= before.drop_last());
            assert(head.push((delta, span)) =~= pairs);
        } else {
            assert(groups.drop_last() =~= before);
        }
    }
}

/// Grouping covers its input: the lines of all groups, one group after the
/// other, are the lines of `pairs` ordered by start, so each line, and each
/// span, stands in the groups as often as in `pairs`; and a line stands in a
/// group with the offset that `pairs` gave it.
pub proof fn lemma_grouping_coverage(pairs: Seq<(AlgTimeDelta, TimeSpan)>)
    ensures
        ungrouped(group_runs(sorted_by_start(pairs))) == sorted_by_start(pairs),
        ungrouped(group_runs(sorted_by_start(pairs))).to_multiset() == pairs.to_multiset(),
        spans_of(ungrouped(group_runs(sorted_by_start(pairs)))).to_multiset() == spans_of(
            pairs,
        ).to_multiset(),
{
    lemma_group_runs_cover(sorted_by_start(pairs));
    lemma_sorted_by_start_is_permutation(pairs);
}

} // verus!
