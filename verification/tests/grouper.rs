use subtitle_resync::discretizer::AlgTimeDelta;
use subtitle_resync::grouper::{get_subtitle_delta_groups, sort_by_start, GroupSummary, ShiftGroup};
use subtitle_resync::timetypes::{TimeDelta, TimePoint, TimeSpan};

fn span(start: i64, end: i64) -> TimeSpan {
    TimeSpan::new(TimePoint::from_msecs(start), TimePoint::from_msecs(end))
}

fn line(delta: i64, start: i64, end: i64) -> (AlgTimeDelta, TimeSpan) {
    (AlgTimeDelta::from_units(delta), span(start, end))
}

fn group(delta: i64, spans: Vec<TimeSpan>) -> ShiftGroup {
    ShiftGroup { delta: AlgTimeDelta::from_units(delta), spans }
}

#[test]
fn lines_are_sorted_by_their_start() {
    let sorted = sort_by_start(vec![line(1, 300, 400), line(2, 100, 200), line(3, 200, 250)]);
    assert_eq!(sorted, vec![line(2, 100, 200), line(3, 200, 250), line(1, 300, 400)]);
}

#[test]
fn lines_that_start_together_keep_their_order() {
    let sorted = sort_by_start(vec![
        line(1, 100, 900),
        line(2, 50, 60),
        line(3, 100, 200),
        line(4, 100, 150),
        line(5, 50, 55),
    ]);
    assert_eq!(
        sorted,
        vec![
            line(2, 50, 60),
            line(5, 50, 55),
            line(1, 100, 900),
            line(3, 100, 200),
            line(4, 100, 150),
        ]
    );
}

#[test]
fn inverted_span_is_sorted_by_its_earlier_end() {
    let sorted = sort_by_start(vec![line(1, 100, 200), line(2, 500, 10), line(3, 50, 60)]);
    assert_eq!(sorted, vec![line(2, 500, 10), line(3, 50, 60), line(1, 100, 200)]);
}

#[test]
fn sorting_keeps_every_line() {
    let lines = vec![
        line(4, 7, 8),
        line(4, 7, 8),
        line(1, -3, 0),
        line(9, 7, 8),
        line(0, i64::MIN, i64::MAX),
        line(2, i64::MAX, i64::MAX),
    ];
    let sorted = sort_by_start(lines.clone());
    assert_eq!(sorted.len(), lines.len());
    for l in &lines {
        let before = lines.iter().filter(|x| *x == l).count();
        let after = sorted.iter().filter(|x| *x == l).count();
        assert_eq!(before, after);
    }
    for pair in sorted.windows(2) {
        assert!(pair[0].1.earliest_point().msecs() <= pair[1].1.earliest_point().msecs());
    }
}

#[test]
fn no_lines_give_no_groups() {
    assert_eq!(get_subtitle_delta_groups(vec![]), Vec::<ShiftGroup>::new());
}

#[test]
fn one_line_is_one_group() {
    assert_eq!(
        get_subtitle_delta_groups(vec![line(5, 10, 20)]),
        vec![group(5, vec![span(10, 20)])]
    );
}

#[test]
fn neighbours_with_one_delta_are_one_group() {
    let groups = get_subtitle_delta_groups(vec![
        line(-5, 0, 100),
        line(-5, 200, 300),
        line(7, 400, 500),
        line(7, 600, 700),
        line(7, 800, 900),
    ]);
    assert_eq!(
        groups,
        vec![
            group(-5, vec![span(0, 100), span(200, 300)]),
            group(7, vec![span(400, 500), span(600, 700), span(800, 900)]),
        ]
    );
}

#[test]
fn groups_follow_the_order_of_start_not_of_input() {
    let groups = get_subtitle_delta_groups(vec![
        line(7, 800, 900),
        line(-5, 200, 300),
        line(7, 400, 500),
        line(-5, 0, 100),
    ]);
    assert_eq!(
        groups,
        vec![
            group(-5, vec![span(0, 100), span(200, 300)]),
            group(7, vec![span(400, 500), span(800, 900)]),
        ]
    );
}

#[test]
fn equal_deltas_that_are_not_neighbours_stay_separate_groups() {
    let groups = get_subtitle_delta_groups(vec![
        line(3, 0, 10),
        line(3, 20, 30),
        line(8, 40, 50),
        line(3, 60, 70),
    ]);
    assert_eq!(
        groups,
        vec![
            group(3, vec![span(0, 10), span(20, 30)]),
            group(8, vec![span(40, 50)]),
            group(3, vec![span(60, 70)]),
        ]
    );
}

#[test]
fn groups_hold_each_line_once() {
    let lines = vec![
        line(1, 50, 60),
        line(2, 10, 20),
        line(1, 30, 40),
        line(1, 50, 60),
        line(2, 70, 80),
        line(2, 5, 500),
    ];
    let groups = get_subtitle_delta_groups(lines.clone());
    let mut flat: Vec<(AlgTimeDelta, TimeSpan)> = Vec::new();
    for g in &groups {
        assert!(!g.spans.is_empty());
        for s in &g.spans {
            flat.push((g.delta, *s));
        }
    }
    assert_eq!(flat, sort_by_start(lines.clone()));
    for l in &lines {
        let before = lines.iter().filter(|x| *x == l).count();
        let after = flat.iter().filter(|x| *x == l).count();
        assert_eq!(before, after);
    }
    for pair in groups.windows(2) {
        assert_ne!(pair[0].delta, pair[1].delta);
    }
}

#[test]
fn summary_counts_and_bounds_a_group() {
    let g = group(4, vec![span(100, 900), span(150, 200), span(300, 1200), span(50, 60)]);
    assert_eq!(
        g.summary(),
        GroupSummary {
            delta: AlgTimeDelta::from_units(4),
            count: 4,
            min_start: TimePoint::from_msecs(50),
            max_end: TimePoint::from_msecs(1200),
        }
    );
    assert_eq!(g.summary().length(), Some(TimeDelta::from_msecs(1150)));
}

#[test]
fn summary_of_one_line_is_that_line() {
    let g = group(-1, vec![span(-20, 30)]);
    let summary = g.summary();
    assert_eq!(summary.count, 1);
    assert_eq!(summary.min_start, TimePoint::from_msecs(-20));
    assert_eq!(summary.max_end, TimePoint::from_msecs(30));
    assert_eq!(summary.length(), Some(TimeDelta::from_msecs(50)));
}

#[test]
fn length_of_a_group_may_be_too_large() {
    let g = group(0, vec![span(i64::MIN, 0), span(0, i64::MAX)]);
    assert_eq!(g.summary().length(), None);
}
