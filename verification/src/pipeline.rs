//! The retiming of a track from end to end, as a chain of steps that can
//! only be taken in their order: checked arguments, then a plan once the
//! formats of the files are settled, then the request to the alignment, then
//! the outcome made of the offsets that the alignment found.
//!
//! The alignment itself is not done here. The caller hands the intervals of
//! an `AlignmentRequest` to an alignment and brings back the offsets it
//! returned; `AlignmentRequest::complete` holds whatever comes back against
//! the request before it uses it.

use crate::assembler::{checked_shifted_timespans, shifted_spans, shifts_fit};
use crate::corrector::{
    checked_truncated_deltas, has_violation, truncated_deltas, truncation_fits,
    writes_negative_timespans,
};
use crate::discretizer::{
    checked_alg_deltas_to_timing_deltas, deltas_fit, discretized_span, materialized_deltas,
    timings_to_alg_timespans, AlgTimeDelta, AlgTimeSpan,
};
use crate::errors::{Error, ErrorView};
use crate::formats::{check_formats, checked_formats, retiming_is_lossy, SubtitleFormat};
use crate::grouper::{
    get_subtitle_delta_groups, group_runs, groups_view, sorted_by_start, summarizes, GroupSummary,
    ShiftGroup,
};
use crate::normalizer::{corrected_timings, normalized};
use crate::timetypes::{TimeDelta, TimeSpan};
use vstd::prelude::*;

verus! {

/// What the caller is told besides the corrected track. None of these stops
/// the retiming.
#[derive(Clone, Copy, Debug, PartialEq, Eq, Structural)]
pub enum Warning {
    /// The reference track has no lines.
    EmptyReference,
    /// The track to correct has no lines.
    EmptyIncorrect,
    /// Some offsets move the start of a line before zero. With `written`
    /// the negative time stamps are kept; without it such lines start at
    /// zero.
    NegativeTimestamps { written: bool },
    /// The output format holds the start of each line only, so the retimed
    /// track may not show as it should.
    LossyFormat,
}

/// The arguments of a retiming that were found in order.
#[derive(Clone, Copy, Debug, PartialEq, Eq)]
pub struct Arguments {
    interval: i64,
    allow_negative_timestamps: bool,
}

/// A retiming whose files have formats that go together.
#[derive(Clone, Copy, Debug, PartialEq, Eq)]
pub struct Plan {
    arguments: Arguments,
    reference_format: SubtitleFormat,
    incorrect_format: SubtitleFormat,
}

/// What an alignment is asked: the lines of both tracks in alignment units.
#[derive(Clone, Debug, PartialEq, Eq)]
pub struct AlignmentRequest {
    plan: Plan,
    timings_reference: Vec<TimeSpan>,
    timings_incorrect: Vec<TimeSpan>,
    reference: Vec<AlgTimeSpan>,
    incorrect: Vec<AlgTimeSpan>,
}

/// What a retiming gives.
#[derive(Clone, Debug, PartialEq, Eq)]
pub struct Outcome {
    /// The blocks of lines that were shifted together, in the order of their
    /// start.
    pub groups: Vec<ShiftGroup>,
    /// What is reported of each block of `groups`.
    pub summaries: Vec<GroupSummary>,
    /// What the caller should be told, in the order in which to tell it.
    pub warnings: Vec<Warning>,
    /// The offset applied to each line of the track to correct.
    pub deltas: Vec<TimeDelta>,
    /// The corrected span of each line of the track to correct.
    pub timespans: Vec<TimeSpan>,
}

/// `Arguments` as plain values.
pub struct ArgumentsView {
    pub interval: int,
    pub allow_negative_timestamps: bool,
}

/// A `Plan` as plain values.
pub struct PlanView {
    pub arguments: ArgumentsView,
    pub reference_format: SubtitleFormat,
    pub incorrect_format: SubtitleFormat,
}

/// An `AlignmentRequest` as plain values: the repaired spans of both tracks,
/// and the two ends of each interval handed to the alignment.
pub struct AlignmentRequestView {
    pub plan: PlanView,
    pub timings_reference: Seq<TimeSpan>,
    pub timings_incorrect: Seq<TimeSpan>,
    pub reference: Seq<(int, int)>,
    pub incorrect: Seq<(int, int)>,
}

/// The two ends of each interval of `spans`.
pub open spec fn intervals_view(spans: Seq<AlgTimeSpan>) -> Seq<(int, int)> {
    Seq::new(spans.len(), |i: int| spans[i]@)
}

/// The two ends, in units, of each span of `timings`.
pub open spec fn discretized(timings: Seq<TimeSpan>, interval: int) -> Seq<(int, int)> {
    Seq::new(timings.len(), |i: int| discretized_span(timings[i], interval))
}

/// Each line with the offset that the alignment gave it.
pub open spec fn paired(alg_deltas: Seq<AlgTimeDelta>, timings: Seq<TimeSpan>) -> Seq<
    (AlgTimeDelta, TimeSpan),
> {
    Seq::new(timings.len(), |i: int| (alg_deltas[i], timings[i]))
}

/// The offsets of the alignment in milliseconds.
pub open spec fn computed_deltas(
    request: AlignmentRequestView,
    alg_deltas: Seq<AlgTimeDelta>,
) -> Seq<TimeDelta> {
    materialized_deltas(alg_deltas, request.plan.arguments.interval)
}

/// Whether the offsets of the alignment are replaced by truncated ones: they
/// are where one of them moves a line before zero and negative time stamps
/// are not allowed.
pub open spec fn truncates(request: AlignmentRequestView, alg_deltas: Seq<AlgTimeDelta>) -> bool {
    has_violation(request.timings_incorrect, computed_deltas(request, alg_deltas))
        && !request.plan.arguments.allow_negative_timestamps
}

/// The offsets that are applied to the lines.
pub open spec fn applied_deltas(
    request: AlignmentRequestView,
    alg_deltas: Seq<AlgTimeDelta>,
) -> Seq<TimeDelta> {
    if truncates(request, alg_deltas) {
        truncated_deltas(request.timings_incorrect, computed_deltas(request, alg_deltas))
    } else {
        computed_deltas(request, alg_deltas)
    }
}

/// Why the offsets `alg_deltas` cannot be applied, if they cannot: there is
/// not one for each line, or an offset or a corrected time stamp is no
/// `i64`.
pub open spec fn retiming_failure(
    request: AlignmentRequestView,
    alg_deltas: Seq<AlgTimeDelta>,
) -> Option<ErrorView> {
    if alg_deltas.len() != request.timings_incorrect.len() {
        Some(
            ErrorView::DeltaCountMismatch {
                expected: request.timings_incorrect.len() as usize,
                found: alg_deltas.len() as usize,
            },
        )
    } else if !deltas_fit(alg_deltas, request.plan.arguments.interval) {
        Some(ErrorView::TimeOutOfRange)
    } else if truncates(request, alg_deltas) && !truncation_fits(
        request.timings_incorrect,
        computed_deltas(request, alg_deltas),
    ) {
        Some(ErrorView::TimeOutOfRange)
    } else if !shifts_fit(request.timings_incorrect, applied_deltas(request, alg_deltas)) {
        Some(ErrorView::TimeOutOfRange)
    } else {
        None
    }
}

/// The warnings of a retiming, in the order in which they are told.
pub open spec fn expected_warnings(
    request: AlignmentRequestView,
    alg_deltas: Seq<AlgTimeDelta>,
) -> Seq<Warning> {
    let empty_reference = if request.timings_reference.len() == 0 {
        seq![Warning::EmptyReference]
    } else {
        Seq::empty()
    };
    let empty_incorrect = if request.timings_incorrect.len() == 0 {
        seq![Warning::EmptyIncorrect]
    } else {
        Seq::empty()
    };
    let negative = if has_violation(
        request.timings_incorrect,
        computed_deltas(request, alg_deltas),
    ) {
        seq![
            Warning::NegativeTimestamps {
                written: request.plan.arguments.allow_negative_timestamps,
            },
        ]
    } else {
        Seq::empty()
    };
    let lossy = if request.plan.incorrect_format == SubtitleFormat::VobSubIdx {
        seq![Warning::LossyFormat]
    } else {
        Seq::empty()
    };
    empty_reference + empty_incorrect + negative + lossy
}

/// The blocks of lines that `alg_deltas` shifts together.
pub open spec fn shifted_blocks(
    request: AlignmentRequestView,
    alg_deltas: Seq<AlgTimeDelta>,
) -> Seq<(AlgTimeDelta, Seq<TimeSpan>)> {
    group_runs(sorted_by_start(paired(alg_deltas, request.timings_incorrect)))
}

/// Whether `summaries` holds the report of each of `blocks`, in their order.
pub open spec fn reports_blocks(
    summaries: Seq<GroupSummary>,
    blocks: Seq<(AlgTimeDelta, Seq<TimeSpan>)>,
) -> bool {
    &&& summaries.len() == blocks.len()
    &&& forall|g: int| 0 <= g < summaries.len() ==> summarizes(#[trigger] summaries[g], blocks[g])
}

/// Whether `outcome` is what the offsets `alg_deltas` make of `request`.
pub open spec fn is_outcome_of(
    outcome: Outcome,
    request: AlignmentRequestView,
    alg_deltas: Seq<AlgTimeDelta>,
) -> bool {
    &&& outcome.deltas@ == applied_deltas(request, alg_deltas)
    &&& outcome.timespans@ == shifted_spans(
        request.timings_incorrect,
        applied_deltas(request, alg_deltas),
    )
    &&& outcome.warnings@ == expected_warnings(request, alg_deltas)
    &&& groups_view(outcome.groups@) == shifted_blocks(request, alg_deltas)
    &&& reports_blocks(outcome.summaries@, shifted_blocks(request, alg_deltas))
}

/// Offsets are applied only where there is one for each line of the track
/// to correct, and then each line gets one offset and one corrected span.
pub proof fn lemma_one_delta_for_each_line(
    request: AlignmentRequestView,
    alg_deltas: Seq<AlgTimeDelta>,
)
    ensures
        alg_deltas.len() != request.timings_incorrect.len() ==> retiming_failure(
            request,
            alg_deltas,
        ) == Some(
            ErrorView::DeltaCountMismatch {
                expected: request.timings_incorrect.len() as usize,
                found: alg_deltas.len() as usize,
            },
        ),
        retiming_failure(request, alg_deltas).is_none() ==> {
            &&& alg_deltas.len() == request.timings_incorrect.len()
            &&& applied_deltas(request, alg_deltas).len() == request.timings_incorrect.len()
            &&& shifted_spans(request.timings_incorrect, applied_deltas(request, alg_deltas)).len()
                == request.timings_incorrect.len()
        },
{
}

/// Unless negative time stamps are allowed, no corrected line starts before
/// zero.
pub proof fn lemma_no_negative_start_unless_allowed(
    request: AlignmentRequestView,
    alg_deltas: Seq<AlgTimeDelta>,
)
    requires
        retiming_failure(request, alg_deltas).is_none(),
        !request.plan.arguments.allow_negative_timestamps,
    ensures
        forall|i: int|
            0 <= i < request.timings_incorrect.len() ==> (#[trigger] shifted_spans(
                request.timings_incorrect,
                applied_deltas(request, alg_deltas),
            )[i]).start@ >= 0,
{
}

impl View for Arguments {
    type V = ArgumentsView;

    closed spec fn view(&self) -> ArgumentsView {
        ArgumentsView {
            interval: self.interval as int,
            allow_negative_timestamps: self.allow_negative_timestamps,
        }
    }
}

impl View for Plan {
    type V = PlanView;

    closed spec fn view(&self) -> PlanView {
        PlanView {
            arguments: self.arguments@,
            reference_format: self.reference_format,
            incorrect_format: self.incorrect_format,
        }
    }
}

impl View for AlignmentRequest {
    type V = AlignmentRequestView;

    closed spec fn view(&self) -> AlignmentRequestView {
        AlignmentRequestView {
            plan: self.plan@,
            timings_reference: self.timings_reference@,
            timings_incorrect: self.timings_incorrect@,
            reference: intervals_view(self.reference@),
            incorrect: intervals_view(self.incorrect@),
        }
    }
}

impl Arguments {
    #[verifier::type_invariant]
    spec fn valid(self) -> bool {
        self.interval >= 1
    }

    /// Accepts an interval of at least one millisecond.
    pub fn new(interval: i64, allow_negative_timestamps: bool) -> (arguments: Result<
        Arguments,
        Error,
    >)
        ensures
            interval >= 1 ==> arguments.is_ok() && arguments.unwrap()@ == (ArgumentsView {
                interval: interval as int,
                allow_negative_timestamps,
            }),
            interval < 1 ==> arguments.is_err() && arguments.unwrap_err()@ == (
            ErrorView::ExpectedPositiveNumber { argument_name: "interval"@, value: interval }),
    {
        if interval < 1 {
            return Err(
                Error::ExpectedPositiveNumber {
                    argument_name: "interval".to_owned(),
                    value: interval,
                },
            );
        }
        Ok(Arguments { interval, allow_negative_timestamps })
    }

    /// The length of one alignment unit in milliseconds.
    pub fn interval(&self) -> (interval: i64)
        ensures
            interval == self@.interval,
            interval >= 1,
    {
        proof {
            use_type_invariant(self);
        }
        self.interval
    }

    /// Whether negative time stamps are written as they are.
    pub fn allow_negative_timestamps(&self) -> (allowed: bool)
        ensures
            allowed == self@.allow_negative_timestamps,
    {
        self.allow_negative_timestamps
    }

    /// Settles the formats of the files. The retiming goes no further where
    /// a format is not known, or where the name of the output file asks for
    /// another format than that of the track to correct.
    pub fn plan(
        self,
        reference_path: &str,
        reference_content: &[u8],
        incorrect_path: &str,
        incorrect_content: &[u8],
        output_path: &str,
    ) -> (plan: Result<Plan, Error>)
        ensures
            match checked_formats(
                reference_path@,
                reference_content@,
                incorrect_path@,
                incorrect_content@,
                output_path@,
            ) {
                Ok(formats) => plan.is_ok() && plan.unwrap()@ == (PlanView {
                    arguments: self@,
                    reference_format: formats.0,
                    incorrect_format: formats.1,
                }),
                Err(expected) => plan.is_err() && plan.unwrap_err()@ == expected,
            },
    {
        match check_formats(
            reference_path,
            reference_content,
            incorrect_path,
            incorrect_content,
            output_path,
        ) {
            Ok((reference_format, incorrect_format)) => Ok(
                Plan { arguments: self, reference_format, incorrect_format },
            ),
            Err(e) => Err(e),
        }
    }
}

impl Plan {
    /// The arguments of the retiming.
    pub fn arguments(&self) -> (arguments: Arguments)
        ensures
            arguments@ == self@.arguments,
    {
        self.arguments
    }

    /// The format of the reference track.
    pub fn reference_format(&self) -> (format: SubtitleFormat)
        ensures
            format == self@.reference_format,
    {
        self.reference_format
    }

    /// The format of the track to correct, which is that of the output.
    pub fn incorrect_format(&self) -> (format: SubtitleFormat)
        ensures
            format == self@.incorrect_format,
    {
        self.incorrect_format
    }

    /// Prepares the spans of both tracks for the alignment: each span is
    /// repaired, then taken to alignment units.
    pub fn request(self, reference: Vec<TimeSpan>, incorrect: Vec<TimeSpan>) -> (request:
        AlignmentRequest)
        ensures
            request@.plan == self@,
            request@.timings_reference == normalized(reference@),
            request@.timings_incorrect == normalized(incorrect@),
            request@.reference == discretized(
                normalized(reference@),
                self@.arguments.interval,
            ),
            request@.incorrect == discretized(normalized(incorrect@), self@.arguments.interval),
    {
        let interval = self.arguments.interval();
        let timings_reference = corrected_timings(reference);
        let timings_incorrect = corrected_timings(incorrect);
        let alg_reference = timings_to_alg_timespans(timings_reference.as_slice(), interval);
        let alg_incorrect = timings_to_alg_timespans(timings_incorrect.as_slice(), interval);
        AlignmentRequest {
            plan: self,
            timings_reference,
            timings_incorrect,
            reference: alg_reference,
            incorrect: alg_incorrect,
        }
    }
}

impl AlignmentRequest {
    /// The plan that this request was made for.
    pub fn plan(&self) -> (plan: Plan)
        ensures
            plan@ == self@.plan,
    {
        self.plan
    }

    /// The lines of the reference track in alignment units.
    pub fn reference(&self) -> (spans: &Vec<AlgTimeSpan>)
        ensures
            intervals_view(spans@) == self@.reference,
    {
        &self.reference
    }

    /// The lines of the track to correct in alignment units. The alignment
    /// owes one offset for each of them, in their order.
    pub fn incorrect(&self) -> (spans: &Vec<AlgTimeSpan>)
        ensures
            intervals_view(spans@) == self@.incorrect,
    {
        &self.incorrect
    }

    /// The repaired spans of the track to correct, which the offsets are
    /// applied to.
    pub fn timings_incorrect(&self) -> (timings: &Vec<TimeSpan>)
        ensures
            timings@ == self@.timings_incorrect,
    {
        &self.timings_incorrect
    }

    /// Applies the offsets that the alignment returned. They are refused
    /// unless there is one for each line of the track to correct. Each line
    /// is then moved by its offset in milliseconds, or, where that would
    /// move it before zero and negative time stamps are not allowed, to
    /// zero.
    pub fn complete(self, alg_deltas: Vec<AlgTimeDelta>) -> (outcome: Result<Outcome, Error>)
        ensures
            match retiming_failure(self@, alg_deltas@) {
                Some(failure) => outcome.is_err() && outcome.unwrap_err()@ == failure,
                None => outcome.is_ok() && is_outcome_of(outcome.unwrap(), self@, alg_deltas@),
            },
            outcome.is_ok() ==> {
                &&& alg_deltas@.len() == self@.timings_incorrect.len()
                &&& outcome.unwrap().deltas@.len() == self@.timings_incorrect.len()
                &&& outcome.unwrap().timespans@.len() == self@.timings_incorrect.len()
            },
            outcome.is_ok() && !self@.plan.arguments.allow_negative_timestamps ==> forall|i: int|
                0 <= i < outcome.unwrap().timespans@.len() ==> (
                #[trigger] outcome.unwrap().timespans@[i]).start@ >= 0,
    {
        let n = self.timings_incorrect.len();
        if alg_deltas.len() != n {
            return Err(Error::DeltaCountMismatch { expected: n, found: alg_deltas.len() });
        }
        let interval = self.plan.arguments.interval();
        let allow_negative = self.plan.arguments.allow_negative_timestamps();
        let computed = match checked_alg_deltas_to_timing_deltas(alg_deltas.as_slice(), interval) {
            Some(deltas) => deltas,
            None => {
                return Err(Error::TimeOutOfRange);
            },
        };

        let (groups, summaries) = summarized_groups(&alg_deltas, &self.timings_incorrect);

        let mut warnings: Vec<Warning> = Vec::new();
        if self.timings_reference.len() == 0 {
            warnings.push(Warning::EmptyReference);
        }
        if n == 0 {
            warnings.push(Warning::EmptyIncorrect);
        }
        let negative = writes_negative_timespans(
            self.timings_incorrect.as_slice(),
            computed.as_slice(),
        );
        if negative {
            warnings.push(Warning::NegativeTimestamps { written: allow_negative });
        }
        if retiming_is_lossy(self.plan.incorrect_format) {
            warnings.push(Warning::LossyFormat);
        }

        let deltas = if negative && !allow_negative {
            match checked_truncated_deltas(self.timings_incorrect.as_slice(), computed) {
                Some(truncated) => truncated,
                None => {
                    return Err(Error::TimeOutOfRange);
                },
            }
        } else {
            computed
        };
        let timespans = match checked_shifted_timespans(
            self.timings_incorrect.as_slice(),
            deltas.as_slice(),
        ) {
            Some(shifted) => shifted,
            None => {
                return Err(Error::TimeOutOfRange);
            },
        };
        proof {
            assert(warnings@ =~= expected_warnings(self@, alg_deltas@));
        }
        Ok(Outcome { groups, summaries, warnings, deltas, timespans })
    }
}

/// The blocks of lines that were shifted together, and the report of each.
fn summarized_groups(alg_deltas: &Vec<AlgTimeDelta>, timings: &Vec<TimeSpan>) -> (blocks: (
    Vec<ShiftGroup>,
    Vec<GroupSummary>,
))
    requires
        alg_deltas@.len() == timings@.len(),
    ensures
        groups_view(blocks.0@) == group_runs(sorted_by_start(paired(alg_deltas@, timings@))),
        reports_blocks(blocks.1@, group_runs(sorted_by_start(paired(alg_deltas@, timings@)))),
{
    let n = timings.len();
    let mut pairs: Vec<(AlgTimeDelta, TimeSpan)> = Vec::with_capacity(n);
    let mut k: usize = 0;
    while k < n
        invariant
            n == timings@.len(),
            n == alg_deltas@.len(),
            k <= n,
            pairs@.len() == k,
            forall|i: int| 0 <= i < k ==> #[trigger] pairs@[i] == (alg_deltas@[i], timings@[i]),
        decreases n - k,
    {
        pairs.push((alg_deltas[k], timings[k]));
        k += 1;
    }
    proof {
        assert(pairs@ =~= paired(alg_deltas@, timings@));
    }
    let groups: Vec<ShiftGroup> = get_subtitle_delta_groups(pairs);
    let ghost runs = group_runs(sorted_by_start(paired(alg_deltas@, timings@)));
    let mut summaries: Vec<GroupSummary> = Vec::with_capacity(groups.len());
    let mut g: usize = 0;
    while g < groups.len()
        invariant
            groups_view(groups@) == runs,
            forall|j: int| 0 <= j < runs.len() ==> (#[trigger] runs[j]).1.len() > 0,
            g <= groups@.len(),
            summaries@.len() == g,
            forall|j: int| 0 <= j < g ==> summarizes(#[trigger] summaries@[j], runs[j]),
        decreases groups@.len() - g,
    {
        proof {
            assert(runs[g as int].1.len() > 0);
        }
        summaries.push(groups[g].summary());
        g += 1;
    }
    (groups, summaries)
}

} // verus!
