use subtitle_resync::discretizer::{
    alg_delta_to_delta, alg_deltas_to_timing_deltas, checked_alg_delta_to_delta,
    checked_alg_deltas_to_timing_deltas, timing_to_alg_timepoint, timings_to_alg_timespans,
    AlgTimeDelta, AlgTimePoint, AlgTimeSpan,
};
use subtitle_resync::timetypes::{TimeDelta, TimePoint, TimeSpan};

fn span(start: i64, end: i64) -> TimeSpan {
    TimeSpan::new(TimePoint::from_msecs(start), TimePoint::from_msecs(end))
}

#[test]
fn time_point_in_units_of_one_millisecond_is_itself() {
    for t in [-1000i64, -1, 0, 1, 999, i64::MAX, i64::MIN] {
        assert_eq!(timing_to_alg_timepoint(TimePoint::from_msecs(t), 1).units(), t);
    }
}

#[test]
fn time_point_is_rounded_down_to_its_unit() {
    assert_eq!(timing_to_alg_timepoint(TimePoint::from_msecs(0), 100).units(), 0);
    assert_eq!(timing_to_alg_timepoint(TimePoint::from_msecs(99), 100).units(), 0);
    assert_eq!(timing_to_alg_timepoint(TimePoint::from_msecs(100), 100).units(), 1);
    assert_eq!(timing_to_alg_timepoint(TimePoint::from_msecs(2599), 100).units(), 25);
    assert_eq!(timing_to_alg_timepoint(TimePoint::from_msecs(1234), 7).units(), 176);
}

#[test]
fn negative_time_point_is_rounded_down_not_towards_zero() {
    assert_eq!(timing_to_alg_timepoint(TimePoint::from_msecs(-1), 100).units(), -1);
    assert_eq!(timing_to_alg_timepoint(TimePoint::from_msecs(-50), 100).units(), -1);
    assert_eq!(timing_to_alg_timepoint(TimePoint::from_msecs(-100), 100).units(), -1);
    assert_eq!(timing_to_alg_timepoint(TimePoint::from_msecs(-101), 100).units(), -2);
    assert_eq!(timing_to_alg_timepoint(TimePoint::from_msecs(-7), 7).units(), -1);
    assert_eq!(timing_to_alg_timepoint(TimePoint::from_msecs(-8), 7).units(), -2);
}

#[test]
fn extreme_time_points_are_discretized() {
    assert_eq!(
        timing_to_alg_timepoint(TimePoint::from_msecs(i64::MIN), 2).units(),
        i64::MIN / 2
    );
    assert_eq!(
        timing_to_alg_timepoint(TimePoint::from_msecs(i64::MIN), 3).units(),
        -3074457345618258603
    );
    assert_eq!(
        timing_to_alg_timepoint(TimePoint::from_msecs(i64::MAX), 3).units(),
        3074457345618258602
    );
    assert_eq!(timing_to_alg_timepoint(TimePoint::from_msecs(i64::MIN), i64::MAX).units(), -2);
    assert_eq!(timing_to_alg_timepoint(TimePoint::from_msecs(i64::MAX), i64::MAX).units(), 1);
}

#[test]
fn round_trip_loses_less_than_one_interval() {
    for interval in [1i64, 2, 3, 10, 40, 1000] {
        for t in -2500i64..2500 {
            let units = timing_to_alg_timepoint(TimePoint::from_msecs(t), interval).units();
            let back = alg_delta_to_delta(AlgTimeDelta::from_units(units), interval).msecs();
            assert!(back <= t, "t = {}, interval = {}", t, interval);
            assert!(t - back < interval, "t = {}, interval = {}", t, interval);
        }
    }
}

#[test]
fn discretization_gives_the_same_unit_each_time() {
    let first = timing_to_alg_timepoint(TimePoint::from_msecs(-12345), 40);
    let second = timing_to_alg_timepoint(TimePoint::from_msecs(-12345), 40);
    assert_eq!(first, second);
    assert_eq!(first, AlgTimePoint::from_units(-309));
}

#[test]
fn delta_in_milliseconds_is_units_times_interval() {
    assert_eq!(alg_delta_to_delta(AlgTimeDelta::from_units(0), 25), TimeDelta::from_msecs(0));
    assert_eq!(alg_delta_to_delta(AlgTimeDelta::from_units(3), 25), TimeDelta::from_msecs(75));
    assert_eq!(alg_delta_to_delta(AlgTimeDelta::from_units(-3), 25), TimeDelta::from_msecs(-75));
    assert_eq!(alg_delta_to_delta(AlgTimeDelta::from_units(-60), 1), TimeDelta::from_msecs(-60));
}

#[test]
fn delta_in_milliseconds_is_a_multiple_of_the_interval() {
    for interval in [1i64, 7, 40] {
        for units in -50i64..50 {
            let delta = alg_delta_to_delta(AlgTimeDelta::from_units(units), interval);
            assert_eq!(delta.msecs() % interval, 0);
            assert_eq!(
                timing_to_alg_timepoint(TimePoint::from_msecs(delta.msecs()), interval).units(),
                units
            );
        }
    }
}

#[test]
fn checked_delta_is_none_where_the_product_overflows() {
    assert_eq!(
        checked_alg_delta_to_delta(AlgTimeDelta::from_units(4), 5),
        Some(TimeDelta::from_msecs(20))
    );
    assert_eq!(checked_alg_delta_to_delta(AlgTimeDelta::from_units(i64::MAX), 2), None);
    assert_eq!(checked_alg_delta_to_delta(AlgTimeDelta::from_units(i64::MIN), 2), None);
    assert_eq!(
        checked_alg_delta_to_delta(AlgTimeDelta::from_units(i64::MIN), 1),
        Some(TimeDelta::from_msecs(i64::MIN))
    );
    assert_eq!(
        checked_alg_delta_to_delta(AlgTimeDelta::from_units(i64::MAX / 2), 2),
        Some(TimeDelta::from_msecs(i64::MAX - 1))
    );
}

#[test]
fn spans_are_discretized_in_order() {
    let spans = vec![span(0, 1000), span(2000, 3000), span(-250, 99)];
    let alg = timings_to_alg_timespans(&spans, 100);
    assert_eq!(alg.len(), 3);
    assert_eq!((alg[0].start().units(), alg[0].end().units()), (0, 10));
    assert_eq!((alg[1].start().units(), alg[1].end().units()), (20, 30));
    assert_eq!((alg[2].start().units(), alg[2].end().units()), (-3, 0));
}

#[test]
fn no_spans_give_no_intervals() {
    assert_eq!(timings_to_alg_timespans(&[], 5), Vec::<AlgTimeSpan>::new());
}

#[test]
fn inverted_span_is_put_in_order_when_discretized() {
    let alg = timings_to_alg_timespans(&[span(900, 100)], 100);
    assert_eq!((alg[0].start().units(), alg[0].end().units()), (1, 9));
}

#[test]
fn new_safe_orders_its_two_points() {
    let a = AlgTimePoint::from_units(10);
    let b = AlgTimePoint::from_units(0);
    let swapped = AlgTimeSpan::new_safe(a, b);
    assert_eq!(swapped.start(), b);
    assert_eq!(swapped.end(), a);
    let kept = AlgTimeSpan::new_safe(b, a);
    assert_eq!(kept, swapped);
    let empty = AlgTimeSpan::new_safe(a, a);
    assert_eq!((empty.start(), empty.end()), (a, a));
}

#[test]
fn deltas_are_materialized_in_order() {
    let alg = vec![
        AlgTimeDelta::from_units(5),
        AlgTimeDelta::from_units(-2),
        AlgTimeDelta::from_units(0),
    ];
    assert_eq!(
        alg_deltas_to_timing_deltas(&alg, 40),
        vec![TimeDelta::from_msecs(200), TimeDelta::from_msecs(-80), TimeDelta::from_msecs(0)]
    );
    assert_eq!(alg_deltas_to_timing_deltas(&[], 40), Vec::<TimeDelta>::new());
}

#[test]
fn checked_deltas_are_none_where_one_overflows() {
    let fine = vec![AlgTimeDelta::from_units(5), AlgTimeDelta::from_units(-2)];
    assert_eq!(
        checked_alg_deltas_to_timing_deltas(&fine, 3),
        Some(vec![TimeDelta::from_msecs(15), TimeDelta::from_msecs(-6)])
    );
    let too_large = vec![AlgTimeDelta::from_units(5), AlgTimeDelta::from_units(i64::MAX)];
    assert_eq!(checked_alg_deltas_to_timing_deltas(&too_large, 3), None);
    assert_eq!(checked_alg_deltas_to_timing_deltas(&[], 3), Some(vec![]));
}
