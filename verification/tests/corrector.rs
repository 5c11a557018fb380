use subtitle_resync::assembler::{checked_shifted_timespans, shifted_timespans};
use subtitle_resync::corrector::{
    checked_truncated_deltas, get_truncated_deltas, moves_before_zero, writes_negative_timespans,
};
use subtitle_resync::timetypes::{TimeDelta, TimePoint, TimeSpan};

fn span(start: i64, end: i64) -> TimeSpan {
    TimeSpan::new(TimePoint::from_msecs(start), TimePoint::from_msecs(end))
}

fn deltas(msecs: &[i64]) -> Vec<TimeDelta> {
    msecs.iter().map(|&m| TimeDelta::from_msecs(m)).collect()
}

#[test]
fn delta_that_moves_start_before_zero_is_a_violation() {
    assert!(moves_before_zero(TimeDelta::from_msecs(-60), span(-50, 100)));
    assert!(moves_before_zero(TimeDelta::from_msecs(-101), span(100, 200)));
    assert!(!moves_before_zero(TimeDelta::from_msecs(-100), span(100, 200)));
    assert!(!moves_before_zero(TimeDelta::from_msecs(50), span(-50, 100)));
    assert!(moves_before_zero(TimeDelta::from_msecs(0), span(-1, 5)));
}

#[test]
fn violation_is_judged_without_overflow() {
    assert!(moves_before_zero(TimeDelta::from_msecs(i64::MIN), span(i64::MIN, 0)));
    assert!(!moves_before_zero(TimeDelta::from_msecs(i64::MAX), span(i64::MAX, i64::MAX)));
    assert!(moves_before_zero(TimeDelta::from_msecs(i64::MAX), span(i64::MIN, 0)));
}

#[test]
fn negative_start_is_found_among_the_lines() {
    let spans = vec![span(0, 10), span(100, 200), span(300, 400)];
    assert!(!writes_negative_timespans(&spans, &deltas(&[0, -100, 5])));
    assert!(writes_negative_timespans(&spans, &deltas(&[0, -100, -301])));
    assert!(writes_negative_timespans(&spans, &deltas(&[-1, 0, 0])));
    assert!(!writes_negative_timespans(&[], &[]));
}

#[test]
fn lines_without_a_partner_are_not_judged() {
    let spans = vec![span(0, 10), span(100, 200)];
    assert!(!writes_negative_timespans(&spans, &deltas(&[0])));
    assert!(!writes_negative_timespans(&spans[..1], &deltas(&[0, -500])));
}

#[test]
fn clamped_delta_moves_the_start_to_zero() {
    let spans = vec![span(-50, 100)];
    let truncated = get_truncated_deltas(&spans, deltas(&[-60]));
    assert_eq!(truncated, deltas(&[50]));
    let corrected = shifted_timespans(&spans, &truncated);
    assert_eq!(corrected, vec![span(0, 150)]);
}

#[test]
fn each_line_is_clamped_by_itself() {
    let spans = vec![span(100, 200), span(500, 600), span(900, 950), span(0, 1)];
    let truncated = get_truncated_deltas(&spans, deltas(&[-700, -700, -700, 3]));
    assert_eq!(truncated, deltas(&[-100, -500, -700, 3]));
    let corrected = shifted_timespans(&spans, &truncated);
    assert_eq!(corrected, vec![span(0, 100), span(0, 100), span(200, 250), span(3, 4)]);
    for line in &corrected {
        assert!(line.start.msecs() >= 0);
    }
}

#[test]
fn truncation_pairs_spans_and_deltas_up_to_the_shorter() {
    let spans = vec![span(10, 20), span(30, 40)];
    assert_eq!(get_truncated_deltas(&spans, deltas(&[-11])), deltas(&[-10]));
    assert_eq!(get_truncated_deltas(&spans[..1], deltas(&[-11, -31])), deltas(&[-10]));
    assert_eq!(get_truncated_deltas(&[], deltas(&[1, 2])), deltas(&[]));
}

#[test]
fn checked_truncation_refuses_a_start_that_cannot_reach_zero() {
    let spans = vec![span(0, 10), span(i64::MIN, 0)];
    assert_eq!(checked_truncated_deltas(&spans, deltas(&[0, 5])), None);
    assert_eq!(checked_truncated_deltas(&spans[..1], deltas(&[0, 5])), Some(deltas(&[0])));
    let reachable = vec![span(i64::MIN + 1, 0)];
    assert_eq!(checked_truncated_deltas(&reachable, deltas(&[5])), Some(deltas(&[i64::MAX])));
}

#[test]
fn shifted_spans_move_both_ends() {
    let spans = vec![span(500, 1500), span(2600, 3600)];
    assert_eq!(
        shifted_timespans(&spans, &deltas(&[-500, -600])),
        vec![span(0, 1000), span(2000, 3000)]
    );
    assert_eq!(shifted_timespans(&spans, &deltas(&[7])), vec![span(507, 1507)]);
    assert_eq!(shifted_timespans(&[], &deltas(&[7])), Vec::<TimeSpan>::new());
}

#[test]
fn negative_spans_are_written_where_nothing_clamps() {
    let spans = vec![span(-50, 100)];
    assert_eq!(shifted_timespans(&spans, &deltas(&[-60])), vec![span(-110, 40)]);
}

#[test]
fn checked_shift_refuses_an_end_that_overflows() {
    let spans = vec![span(0, i64::MAX)];
    assert_eq!(checked_shifted_timespans(&spans, &deltas(&[1])), None);
    assert_eq!(checked_shifted_timespans(&spans, &deltas(&[0])), Some(vec![span(0, i64::MAX)]));
    let early = vec![span(i64::MIN, 0)];
    assert_eq!(checked_shifted_timespans(&early, &deltas(&[-1])), None);
}
