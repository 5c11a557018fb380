use subtitle_resync::discretizer::{AlgTimeDelta, AlgTimeSpan};
use subtitle_resync::pipeline::{AlignmentRequest, Arguments, Warning};
use subtitle_resync::timetypes::{TimePoint, TimeSpan};

fn span(start: i64, end: i64) -> TimeSpan {
    TimeSpan::new(TimePoint::from_msecs(start), TimePoint::from_msecs(end))
}

fn to_aligner(spans: &[AlgTimeSpan]) -> Vec<aligner::TimeSpan> {
    spans
        .iter()
        .map(|s| {
            aligner::TimeSpan::new(
                aligner::TimePoint::from(s.start().units()),
                aligner::TimePoint::from(s.end().units()),
            )
        })
        .collect()
}

fn aligned(request: &AlignmentRequest, split_penalty: f64) -> Vec<AlgTimeDelta> {
    aligner::align(
        to_aligner(request.incorrect()),
        to_aligner(request.reference()),
        split_penalty / 100.0,
        None,
    )
    .into_iter()
    .map(|d| AlgTimeDelta::from_units(i64::from(d)))
    .collect()
}

fn request_for(
    interval: i64,
    reference: Vec<TimeSpan>,
    incorrect: Vec<TimeSpan>,
) -> AlignmentRequest {
    Arguments::new(interval, false)
        .unwrap()
        .plan("reference.srt", b"", "incorrect.srt", b"", "corrected.srt")
        .unwrap()
        .request(reference, incorrect)
}

#[test]
fn alignment_returns_one_delta_for_each_line() {
    let request = request_for(
        1,
        vec![span(0, 1000), span(2000, 3000)],
        vec![span(500, 1500), span(2600, 3600)],
    );
    let alg_deltas = aligned(&request, 4.0);
    assert_eq!(alg_deltas.len(), 2);
    let outcome = request.complete(alg_deltas).unwrap();
    assert_eq!(outcome.deltas.len(), 2);
    assert_eq!(outcome.timespans.len(), 2);
}

#[test]
fn aligned_deltas_are_multiples_of_the_interval() {
    for interval in [1i64, 10, 100] {
        let request = request_for(
            interval,
            vec![span(0, 1000), span(2000, 3000)],
            vec![span(500, 1500), span(2600, 3600)],
        );
        let alg_deltas = aligned(&request, 4.0);
        assert_eq!(alg_deltas.len(), 2);
        let outcome = request.complete(alg_deltas).unwrap();
        assert_eq!(outcome.deltas.len(), 2);
        for delta in &outcome.deltas {
            assert_eq!(delta.msecs() % interval, 0);
        }
        for line in &outcome.timespans {
            assert!(line.start.msecs() >= 0);
        }
    }
}

#[test]
fn empty_reference_is_warned_of_and_still_gives_output() {
    let request = request_for(1, vec![], vec![span(500, 1500), span(2600, 3600)]);
    let alg_deltas = aligned(&request, 4.0);
    assert_eq!(alg_deltas.len(), 2);
    let outcome = request.complete(alg_deltas).unwrap();
    assert_eq!(outcome.warnings, vec![Warning::EmptyReference]);
    assert_eq!(outcome.timespans.len(), 2);
}

#[test]
fn empty_track_to_correct_gives_empty_output() {
    let request = request_for(1, vec![span(0, 1000)], vec![]);
    let alg_deltas = aligned(&request, 4.0);
    assert_eq!(alg_deltas.len(), 0);
    let outcome = request.complete(alg_deltas).unwrap();
    assert_eq!(outcome.warnings, vec![Warning::EmptyIncorrect]);
    assert!(outcome.timespans.is_empty());
}

#[test]
fn track_that_matches_its_reference_is_left_where_it_is() {
    let lines = vec![span(0, 1000), span(2000, 3000), span(5000, 5500)];
    let request = request_for(1, lines.clone(), lines.clone());
    let alg_deltas = aligned(&request, 4.0);
    assert_eq!(alg_deltas.len(), 3);
    let outcome = request.complete(alg_deltas).unwrap();
    assert_eq!(outcome.timespans, lines);
    assert_eq!(outcome.groups.len(), 1);
    assert_eq!(outcome.summaries.len(), 1);
    assert_eq!(outcome.summaries[0].count, 3);
}
