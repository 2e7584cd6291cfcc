use rotation_curves::clipping::{
    assemble, blank, blank_point, clip, clip_stepped, find_crossings, is_crossing,
    make_crossing_point, Crossing, Resolved,
};
use rotation_curves::point::{SamplePoint, Series};

fn b(v: f64) -> u64 {
    v.to_bits()
}

fn f(bits: u64) -> f64 {
    f64::from_bits(bits)
}

fn point(x: f64, y1: f64, y2: f64) -> SamplePoint {
    SamplePoint::new(b(x), b(y1), b(y2))
}

/// Linear interpolation between two samples, on patterns.
fn locate(x0: u64, y0: u64, x1: u64, y1: u64, bound: u64) -> u64 {
    let m = (f(bound) - f(y0)) / (f(y1) - f(y0));
    b(f(x0) + m * (f(x1) - f(x0)))
}

fn same_point(a: &SamplePoint, x: f64, y1: f64, y2: f64) -> bool {
    let eq = |bits: u64, v: f64| if v.is_nan() { f(bits).is_nan() } else { f(bits) == v };
    eq(a.x, x) && eq(a.y1, y1) && eq(a.y2, y2)
}

#[test]
fn crossing_of_two_points_lies_halfway_and_on_the_bound() {
    let points = vec![point(0.0, 2.0, 0.0), point(1.0, 6.0, 0.0)];
    let first = |_x: u64| b(0.0);
    let second = |_x: u64| b(0.0);
    let curve = clip(&points, b(4.0), &locate, &first, &second);
    assert_eq!(curve.len(), 3);
    assert_eq!(f(curve[1].x), 0.5);
    assert_eq!(f(curve[1].y1), 4.0);
    assert_eq!(curve[1].y1, b(4.0));
    assert!(same_point(&curve[0], 0.0, 2.0, 0.0));
    assert!(same_point(&curve[2], 1.0, f64::NAN, 0.0));
}

#[test]
fn crossing_is_found_in_both_directions() {
    assert!(is_crossing(b(2.0), b(6.0), b(4.0)));
    assert!(is_crossing(b(6.0), b(2.0), b(4.0)));
    assert!(!is_crossing(b(2.0), b(3.0), b(4.0)));
    assert!(!is_crossing(b(5.0), b(6.0), b(4.0)));
}

#[test]
fn value_on_the_bound_is_no_crossing() {
    assert!(!is_crossing(b(4.0), b(6.0), b(4.0)));
    assert!(!is_crossing(b(2.0), b(4.0), b(4.0)));
    assert!(!is_crossing(b(4.0), b(4.0), b(4.0)));
}

#[test]
fn flat_segment_is_no_crossing() {
    assert!(!is_crossing(b(6.0), b(6.0), b(4.0)));
    assert!(!is_crossing(b(2.0), b(2.0), b(4.0)));
}

#[test]
fn nan_is_no_crossing() {
    assert!(!is_crossing(b(f64::NAN), b(6.0), b(4.0)));
    assert!(!is_crossing(b(2.0), b(f64::NAN), b(4.0)));
    assert!(!is_crossing(b(2.0), b(6.0), b(f64::NAN)));
}

#[test]
fn infinity_lies_on_its_side_of_the_bound() {
    assert!(is_crossing(b(f64::INFINITY), b(1.0), b(4.0)));
    assert!(is_crossing(b(f64::NEG_INFINITY), b(5.0), b(4.0)));
}

#[test]
fn crossing_from_infinity_places_no_point() {
    let points = vec![point(0.0, f64::INFINITY, 0.0), point(1.0, 2.0, 0.0)];
    assert_eq!(find_crossings(&points, b(4.0)).len(), 1);
    assert!(f(locate(b(0.0), b(f64::INFINITY), b(1.0), b(2.0), b(4.0))).is_nan());
    let first = |_x: u64| b(0.0);
    let second = |_x: u64| b(0.0);
    let curve = clip(&points, b(4.0), &locate, &first, &second);
    assert_eq!(curve.len(), 2);
    assert!(same_point(&curve[0], 0.0, f64::NAN, 0.0));
    assert!(same_point(&curve[1], 1.0, 2.0, 0.0));
    assert_eq!(clip_stepped(&points, b(4.0), &locate), curve);
}

#[test]
fn point_is_placed_between_the_samples_with_the_ends_included() {
    let points = vec![point(1.0, 2.0, 0.0), point(2.0, 6.0, 0.0)];
    for &x in [f64::NAN, 0.5, 0.9999999999999999, 2.0000000000000004, 2.5, f64::INFINITY,
        f64::NEG_INFINITY, -1.5]
        .iter()
    {
        let resolved = vec![Resolved { x: b(x), companion: b(0.0) }];
        let curve = assemble(&points, b(4.0), &resolved).unwrap();
        assert_eq!(curve.len(), 2, "{}", x);
        assert!(same_point(&curve[0], 1.0, 2.0, 0.0));
        assert!(same_point(&curve[1], 2.0, f64::NAN, 0.0));
    }
    for &x in [1.0, 1.0000000000000002, 1.5, 1.9999999999999998, 2.0].iter() {
        let resolved = vec![Resolved { x: b(x), companion: b(0.0) }];
        let curve = assemble(&points, b(4.0), &resolved).unwrap();
        assert_eq!(curve.len(), 3, "{}", x);
        assert!(same_point(&curve[0], 1.0, 2.0, 0.0));
        assert!(same_point(&curve[1], x, 4.0, 0.0));
        assert!(same_point(&curve[2], 2.0, f64::NAN, 0.0));
    }
}

#[test]
fn crossing_located_on_a_sample_by_rounding_keeps_its_point() {
    let points = vec![point(1.0, 299.99999999999994, 0.0), point(2.0, 1.7e308, 0.0)];
    assert_eq!(f(locate(b(1.0), b(299.99999999999994), b(2.0), b(1.7e308), b(300.0))), 1.0);
    let curve = clip_stepped(&points, b(300.0), &locate);
    assert_eq!(curve.len(), 3);
    assert!(same_point(&curve[0], 1.0, 299.99999999999994, 0.0));
    assert!(same_point(&curve[1], 1.0, 300.0, 0.0));
    assert!(same_point(&curve[2], 2.0, f64::NAN, 0.0));
}

#[test]
fn both_series_crossing_on_a_sample_keep_both_points() {
    let points = vec![
        point(45.0, 29.999999999999996, 29.999999999999996),
        point(45.25, 31.0, 31.0),
    ];
    assert_eq!(f(locate(b(45.0), b(29.999999999999996), b(45.25), b(31.0), b(30.0))), 45.0);
    let first = |_x: u64| b(29.999999999999996);
    let second = |_x: u64| b(29.999999999999996);
    let curve = clip(&points, b(30.0), &locate, &first, &second);
    assert_eq!(curve.len(), 4);
    assert!(same_point(&curve[0], 45.0, 29.999999999999996, 29.999999999999996));
    assert!(same_point(&curve[1], 45.0, 30.0, 29.999999999999996));
    assert!(same_point(&curve[2], 45.0, 29.999999999999996, 30.0));
    assert!(same_point(&curve[3], 45.25, f64::NAN, f64::NAN));
}

#[test]
fn of_two_crossings_in_one_interval_each_is_placed_on_its_own() {
    let points = vec![point(0.0, 2.0, 7.0), point(1.0, 6.0, 1.0)];
    let only_second = vec![
        Resolved { x: b(f64::NAN), companion: b(1.0) },
        Resolved { x: b(0.25), companion: b(1.5) },
    ];
    let curve = assemble(&points, b(4.0), &only_second).unwrap();
    assert_eq!(curve.len(), 3);
    assert!(same_point(&curve[1], 0.25, 1.5, 4.0));
    let only_first = vec![
        Resolved { x: b(0.75), companion: b(1.0) },
        Resolved { x: b(1.5), companion: b(1.5) },
    ];
    let curve = assemble(&points, b(4.0), &only_first).unwrap();
    assert_eq!(curve.len(), 3);
    assert!(same_point(&curve[1], 0.75, 4.0, 1.0));
    let neither = vec![
        Resolved { x: b(-0.5), companion: b(1.0) },
        Resolved { x: b(7.0), companion: b(1.5) },
    ];
    assert_eq!(assemble(&points, b(4.0), &neither).unwrap().len(), 2);
    let both_on_the_ends = vec![
        Resolved { x: b(1.0), companion: b(1.0) },
        Resolved { x: b(0.0), companion: b(1.5) },
    ];
    let curve = assemble(&points, b(4.0), &both_on_the_ends).unwrap();
    assert_eq!(curve.len(), 4);
    assert!(same_point(&curve[1], 0.0, 1.5, 4.0));
    assert!(same_point(&curve[2], 1.0, 4.0, 1.0));
}

#[test]
fn other_series_is_not_asked_where_no_point_is_placed() {
    let points = vec![point(0.0, 2.0, 0.0), point(1.0, 6.0, 0.0)];
    let asked = std::cell::Cell::new(0);
    let first = |_x: u64| b(0.0);
    let second = |_x: u64| {
        asked.set(asked.get() + 1);
        b(0.0)
    };
    let nowhere = |_: u64, _: u64, _: u64, _: u64, _: u64| b(f64::NAN);
    assert_eq!(clip(&points, b(4.0), &nowhere, &first, &second).len(), 2);
    assert_eq!(asked.get(), 0);
    assert_eq!(clip(&points, b(4.0), &locate, &first, &second).len(), 3);
    assert_eq!(asked.get(), 1);
}

#[test]
fn blank_replaces_only_values_above_the_bound() {
    assert!(f(blank(b(4.5), b(4.0))).is_nan());
    assert!(f(blank(b(f64::INFINITY), b(4.0))).is_nan());
    assert_eq!(blank(b(4.0), b(4.0)), b(4.0));
    assert_eq!(blank(b(3.0), b(4.0)), b(3.0));
    assert_eq!(blank(b(-7.0), b(4.0)), b(-7.0));
    let nan = b(f64::NAN) | 5;
    assert_eq!(blank(nan, b(4.0)), nan);
}

#[test]
fn blank_point_keeps_the_radius() {
    let p = blank_point(point(2.5, 9.0, 1.0), b(4.0));
    assert!(same_point(&p, 2.5, f64::NAN, 1.0));
    let q = blank_point(point(2.5, 1.0, 9.0), b(4.0));
    assert!(same_point(&q, 2.5, 1.0, f64::NAN));
    let r = blank_point(point(2.5, 9.0, 9.0), b(4.0));
    assert!(same_point(&r, 2.5, f64::NAN, f64::NAN));
}

#[test]
fn crossing_point_pins_the_crossing_series() {
    let at = Resolved { x: b(0.5), companion: b(1.25) };
    let p = make_crossing_point(Series::First, b(4.0), at);
    assert!(same_point(&p, 0.5, 4.0, 1.25));
    let q = make_crossing_point(Series::Second, b(4.0), at);
    assert!(same_point(&q, 0.5, 1.25, 4.0));
}

#[test]
fn companion_at_or_above_the_bound_is_not_drawn() {
    for &c in [4.0, 4.5, f64::INFINITY, f64::NAN].iter() {
        let at = Resolved { x: b(0.5), companion: b(c) };
        let p = make_crossing_point(Series::First, b(4.0), at);
        assert!(same_point(&p, 0.5, 4.0, f64::NAN), "{}", c);
        let q = make_crossing_point(Series::Second, b(4.0), at);
        assert!(same_point(&q, 0.5, f64::NAN, 4.0), "{}", c);
    }
}

#[test]
fn crossings_are_listed_by_interval_and_series() {
    let points = vec![
        point(0.0, 6.0, 1.0),
        point(1.0, 2.0, 1.0),
        point(2.0, 5.0, 7.0),
        point(3.0, 5.0, 2.0),
        point(4.0, 1.0, 2.0),
    ];
    let found = find_crossings(&points, b(4.0));
    assert_eq!(
        found,
        vec![
            Crossing { index: 0, series: Series::First },
            Crossing { index: 1, series: Series::First },
            Crossing { index: 1, series: Series::Second },
            Crossing { index: 2, series: Series::Second },
            Crossing { index: 3, series: Series::First },
        ]
    );
}

#[test]
fn short_curves_have_no_crossing() {
    assert_eq!(find_crossings(&vec![], b(4.0)), vec![]);
    assert_eq!(find_crossings(&vec![point(0.0, 9.0, 9.0)], b(4.0)), vec![]);
}

#[test]
fn empty_curve_stays_empty() {
    let points: Vec<SamplePoint> = vec![];
    assert_eq!(assemble(&points, b(4.0), &vec![]), Some(vec![]));
    assert_eq!(clip_stepped(&points, b(4.0), &locate), vec![]);
}

#[test]
fn first_sample_above_the_bound_is_blanked_without_a_crossing() {
    let points = vec![point(0.0, 9.0, 1.0), point(1.0, 8.0, 1.0)];
    let curve = assemble(&points, b(4.0), &vec![]).unwrap();
    assert_eq!(curve.len(), 2);
    assert!(same_point(&curve[0], 0.0, f64::NAN, 1.0));
    assert!(same_point(&curve[1], 1.0, f64::NAN, 1.0));
}

#[test]
fn assemble_wants_one_resolved_value_per_crossing() {
    let points = vec![point(0.0, 2.0, 0.0), point(1.0, 6.0, 0.0)];
    let one = Resolved { x: b(0.5), companion: b(0.0) };
    assert_eq!(assemble(&points, b(4.0), &vec![]), None);
    assert_eq!(assemble(&points, b(4.0), &vec![one, one]), None);
    assert!(assemble(&points, b(4.0), &vec![one]).is_some());
    let calm = vec![point(0.0, 2.0, 0.0), point(1.0, 3.0, 0.0)];
    assert_eq!(assemble(&calm, b(4.0), &vec![one]), None);
}

#[test]
fn assemble_inserts_behind_the_left_sample() {
    let points = vec![point(0.0, 2.0, 1.0), point(1.0, 6.0, 1.5), point(2.0, 3.0, 2.0)];
    let resolved = vec![
        Resolved { x: b(0.5), companion: b(1.25) },
        Resolved { x: b(1.75), companion: b(1.875) },
    ];
    let curve = assemble(&points, b(4.0), &resolved).unwrap();
    assert_eq!(curve.len(), 5);
    assert!(same_point(&curve[0], 0.0, 2.0, 1.0));
    assert!(same_point(&curve[1], 0.5, 4.0, 1.25));
    assert!(same_point(&curve[2], 1.0, f64::NAN, 1.5));
    assert!(same_point(&curve[3], 1.75, 4.0, 1.875));
    assert!(same_point(&curve[4], 2.0, 3.0, 2.0));
}

#[test]
fn two_crossings_in_one_interval_stand_by_radius() {
    let points = vec![point(0.0, 2.0, 7.0), point(1.0, 6.0, 1.0)];
    // both series cross in the one interval; the resolved radii decide which point comes first
    let early_second = vec![
        Resolved { x: b(0.75), companion: b(1.0) },
        Resolved { x: b(0.25), companion: b(1.0) },
    ];
    let curve = assemble(&points, b(4.0), &early_second).unwrap();
    assert_eq!(curve.len(), 4);
    assert!(same_point(&curve[1], 0.25, 1.0, 4.0));
    assert!(same_point(&curve[2], 0.75, 4.0, 1.0));
    let early_first = vec![
        Resolved { x: b(0.25), companion: b(1.0) },
        Resolved { x: b(0.75), companion: b(1.0) },
    ];
    let curve = assemble(&points, b(4.0), &early_first).unwrap();
    assert!(same_point(&curve[1], 0.25, 4.0, 1.0));
    assert!(same_point(&curve[2], 0.75, 1.0, 4.0));
    let together = vec![
        Resolved { x: b(0.5), companion: b(1.0) },
        Resolved { x: b(0.5), companion: b(1.0) },
    ];
    let curve = assemble(&points, b(4.0), &together).unwrap();
    assert!(same_point(&curve[1], 0.5, 4.0, 1.0));
    assert!(same_point(&curve[2], 0.5, 1.0, 4.0));
}

#[test]
fn clip_evaluates_the_other_series_at_the_crossing() {
    let first = |x: u64| b(10.0 - 8.0 * f(x));
    let second = |x: u64| b(f(x) * f(x));
    let points: Vec<SamplePoint> =
        (0..4).map(|i| b(i as f64)).map(|x| SamplePoint::new(x, first(x), second(x))).collect();
    let curve = clip(&points, b(4.0), &locate, &first, &second);
    // first: 10, 2, -6, -14 crosses downward in [0, 1] at 0.75
    // second: 0, 1, 4, 9 crosses upward only in [2, 3]: 4 is on the bound
    assert_eq!(curve.len(), 5);
    assert!(same_point(&curve[0], 0.0, f64::NAN, 0.0));
    assert!(same_point(&curve[1], 0.75, 4.0, 0.5625));
    assert_eq!(curve[1].y2, second(curve[1].x));
    assert!(same_point(&curve[2], 1.0, 2.0, 1.0));
    assert!(same_point(&curve[3], 2.0, -6.0, 4.0));
    assert!(same_point(&curve[4], 3.0, -14.0, f64::NAN));
}

#[test]
fn clip_reproduces_the_companion_from_its_function() {
    let first = |x: u64| b(3.0 + 2.0 * f(x));
    let second = |x: u64| b(1.0 / (1.0 + f(x)));
    let points: Vec<SamplePoint> =
        (0..6).map(|i| b(i as f64 * 0.25)).map(|x| SamplePoint::new(x, first(x), second(x))).collect();
    let curve = clip(&points, b(4.0), &locate, &first, &second);
    let synthetic: Vec<&SamplePoint> = curve.iter().filter(|p| p.y1 == b(4.0) && f(p.x) != 0.5).collect();
    assert_eq!(synthetic.len(), 0);
    // 3 + 2x reaches 4 exactly at the sample 0.5: no crossing, nothing inserted
    assert_eq!(curve.len(), 6);
    let steeper = |x: u64| b(3.0 + 3.0 * f(x));
    let points: Vec<SamplePoint> =
        (0..6).map(|i| b(i as f64 * 0.25)).map(|x| SamplePoint::new(x, steeper(x), second(x))).collect();
    let curve = clip(&points, b(4.0), &locate, &steeper, &second);
    assert_eq!(curve.len(), 7);
    let p = curve[2];
    assert_eq!(p.y1, b(4.0));
    assert!(f(p.x) > 0.25 && f(p.x) < 0.5);
    assert_eq!(p.y2, second(p.x));
}

#[test]
fn clip_stepped_keeps_the_left_value_of_the_other_series() {
    let points = vec![
        point(0.0, 100.0, 55.0),
        point(1.0, 500.0, 92.0),
        point(2.0, 200.0, f64::NAN),
        point(3.0, 400.0, f64::NAN),
    ];
    let curve = clip_stepped(&points, b(300.0), &locate);
    assert_eq!(curve.len(), 7);
    assert!(same_point(&curve[0], 0.0, 100.0, 55.0));
    assert!(same_point(&curve[1], 0.5, 300.0, 55.0));
    assert!(same_point(&curve[2], 1.0, f64::NAN, 92.0));
    assert!(same_point(&curve[3], 1.0 + (-200.0f64 / -300.0), 300.0, 92.0));
    assert!(same_point(&curve[4], 2.0, 200.0, f64::NAN));
    assert!(same_point(&curve[5], 2.5, 300.0, f64::NAN));
    assert!(same_point(&curve[6], 3.0, f64::NAN, f64::NAN));
}

#[test]
fn clipping_a_clipped_curve_changes_nothing() {
    let first = |x: u64| b(10.0 - 8.0 * f(x));
    let second = |x: u64| b(f(x) * f(x) + 0.5);
    let points: Vec<SamplePoint> =
        (0..8).map(|i| b(i as f64 * 0.5)).map(|x| SamplePoint::new(x, first(x), second(x))).collect();
    let once = clip(&points, b(4.0), &locate, &first, &second);
    assert!(once.len() > points.len());
    assert_eq!(find_crossings(&once, b(4.0)), vec![]);
    let twice = clip(&once, b(4.0), &locate, &first, &second);
    assert_eq!(twice, once);
    assert_eq!(assemble(&once, b(4.0), &vec![]), Some(once.clone()));
    assert_eq!(clip_stepped(&once, b(4.0), &locate), once);
}

#[test]
fn curve_within_the_bound_is_returned_as_it_is() {
    let points = vec![
        point(0.0, 1.0, 4.0),
        point(0.25, 3.5, f64::NAN),
        point(0.5, 4.0, -2.0),
        point(0.75, 0.0, 3.999),
    ];
    let first = |_x: u64| b(0.0);
    let second = |_x: u64| b(0.0);
    assert_eq!(clip(&points, b(4.0), &locate, &first, &second), points);
    assert_eq!(clip_stepped(&points, b(4.0), &locate), points);
    assert_eq!(assemble(&points, b(4.0), &vec![]), Some(points.clone()));
}

#[test]
fn no_value_of_a_clipped_curve_lies_above_the_bound() {
    let first = |x: u64| b(6.0 * (f(x) * 1.3).sin() + 2.0);
    let second = |x: u64| b(6.0 * (f(x) * 0.7).cos() + 1.0);
    let points: Vec<SamplePoint> =
        (0..200).map(|i| b(i as f64 * 0.25)).map(|x| SamplePoint::new(x, first(x), second(x))).collect();
    let curve = clip(&points, b(4.0), &locate, &first, &second);
    assert!(curve.len() > points.len());
    for p in curve.iter() {
        assert!(!(f(p.y1) > 4.0));
        assert!(!(f(p.y2) > 4.0));
    }
    for w in curve.windows(2) {
        assert!(f(w[0].x) <= f(w[1].x));
    }
    let kept: Vec<u64> = curve.iter().map(|p| p.x).filter(|x| points.iter().any(|q| q.x == *x)).collect();
    assert_eq!(kept.len(), points.len());
}

#[test]
fn series_names_its_companion() {
    assert_eq!(Series::First.other(), Series::Second);
    assert_eq!(Series::Second.other(), Series::First);
    let p = point(1.0, 2.0, 3.0);
    assert_eq!(p.get(Series::First), b(2.0));
    assert_eq!(p.get(Series::Second), b(3.0));
}
