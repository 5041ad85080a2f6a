use thelio_fan::curve::CurvePoint;
use thelio_fan::curve::FanCurve;

fn demo_curve() -> FanCurve {
    // Thresholds in centidegrees, duties as plain percentages.
    FanCurve::from_points(vec![
        CurvePoint { temp: 4000, duty: 20 },
        CurvePoint { temp: 6000, duty: 50 },
        CurvePoint { temp: 8000, duty: 100 },
    ])
    .unwrap()
}

#[test]
fn below_first_threshold_yields_no_duty() {
    let c = demo_curve();
    assert_eq!(c.lookup(3500), None);
    assert_eq!(c.lookup(3999), None);
    assert_eq!(c.lookup(i16::MIN), None);
}

#[test]
fn step_function_boundaries() {
    let c = demo_curve();
    // Boundary inclusive on the lower side.
    assert_eq!(c.lookup(4000), Some(20));
    assert_eq!(c.lookup(5999), Some(20));
    assert_eq!(c.lookup(6000), Some(50));
    assert_eq!(c.lookup(8000), Some(100));
    assert_eq!(c.lookup(i16::MAX), Some(100));
}

#[test]
fn smoothed_sequence_maps_to_duty_sequence() {
    // The scenario's temperature sequence, in centidegrees, against the
    // step-function law: each value maps to the duty of the greatest
    // threshold not exceeding it.
    let c = demo_curve();
    let temps = [3500i16, 5000, 6500, 8500];
    let expect = [None, Some(20), Some(50), Some(100)];
    for (t, e) in temps.iter().zip(expect.iter()) {
        assert_eq!(c.lookup(*t), *e);
    }
    // A drop back between the first two thresholds lands on the first step.
    assert_eq!(c.lookup(5500), Some(20));
}

#[test]
fn unsorted_tables_are_refused() {
    assert!(
        FanCurve::from_points(vec![
            CurvePoint { temp: 6000, duty: 50 },
            CurvePoint { temp: 4000, duty: 20 },
        ])
        .is_none()
    );
    // Equal thresholds are refused too.
    assert!(
        FanCurve::from_points(vec![
            CurvePoint { temp: 4000, duty: 20 },
            CurvePoint { temp: 4000, duty: 50 },
        ])
        .is_none()
    );
    // Decreasing duties are refused.
    assert!(
        FanCurve::from_points(vec![
            CurvePoint { temp: 4000, duty: 50 },
            CurvePoint { temp: 6000, duty: 20 },
        ])
        .is_none()
    );
}

#[test]
fn preset_curves_are_step_functions() {
    let c = FanCurve::standard_smooth();
    assert_eq!(c.lookup(4499), None);
    assert_eq!(c.lookup(4500), Some(2000));
    assert_eq!(c.lookup(8500), Some(10000));
    let c = FanCurve::threadripper2();
    assert_eq!(c.lookup(3999), None);
    assert_eq!(c.lookup(4000), Some(3000));
    let c = FanCurve::hedt();
    assert_eq!(c.lookup(6500), Some(6000));
    let c = FanCurve::xeon();
    assert_eq!(c.lookup(7500), Some(10000));
}

#[test]
fn preset_tables_are_ordered() {
    for c in [
        FanCurve::standard_smooth(),
        FanCurve::threadripper2(),
        FanCurve::hedt(),
        FanCurve::xeon(),
    ] {
        assert!(c.len() > 0);
        for i in 1..c.len() {
            assert!(c.point(i - 1).temp < c.point(i).temp);
            assert!(c.point(i - 1).duty <= c.point(i).duty);
        }
    }
}
