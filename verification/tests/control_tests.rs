use thelio_fan::actuate::FanCommand;
use thelio_fan::actuate::actuation_commands;
use thelio_fan::actuate::channel_token;
use thelio_fan::actuate::Channel;
use thelio_fan::classify::classify;
use thelio_fan::classify::curve_for_kind;
use thelio_fan::classify::CurveKind;
use thelio_fan::control::plan_startup;
use thelio_fan::control::Controller;
use thelio_fan::control::PortId;
use thelio_fan::control::SampleEvent;
use thelio_fan::curve::CurvePoint;
use thelio_fan::curve::FanCurve;
use thelio_fan::errors::DriverError;

fn demo_curve() -> FanCurve {
    FanCurve::from_points(vec![
        CurvePoint { temp: 4000, duty: 20 },
        CurvePoint { temp: 6000, duty: 50 },
        CurvePoint { temp: 8000, duty: 100 },
    ])
    .unwrap()
}

#[test]
fn smoothed_sequence_drives_duty_sequence() {
    // Window of one sample, so each cycle's duty follows its own temperature:
    // the curve scenario end to end through the controller.
    let mut ctl = Controller::with_capacity(demo_curve(), 1);
    let mut duties = Vec::new();
    for line in [&b"35\n"[..], b"50\n", b"65\n", b"85\n"] {
        duties.push(ctl.on_event(&SampleEvent::Line(line.to_vec())).unwrap());
    }
    assert_eq!(duties, vec![None, Some(20), Some(50), Some(100)]);
}

#[test]
fn spike_holds_duty_through_spin_down_window() {
    let mut ctl = Controller::with_capacity(demo_curve(), 3);
    let mut duties = Vec::new();
    for line in [&b"85\n"[..], b"35\n", b"35\n", b"35\n"] {
        duties.push(ctl.on_event(&SampleEvent::Line(line.to_vec())).unwrap());
    }
    // The spike keeps the smoothed value at 8500 for the whole window, then
    // leaves it and the duty falls back.
    assert_eq!(duties, vec![Some(100), Some(100), Some(100), None]);
}

#[test]
fn read_failure_terminates_without_further_writes() {
    // A failed sensor read on cycle 3 of an otherwise-normal run: the loop
    // stops there, and no device write happens after cycle 2's.
    let n_devices = 2;
    let mut ctl = Controller::with_capacity(demo_curve(), 1);
    let events = [
        SampleEvent::Line(b"35\n".to_vec()),
        SampleEvent::Line(b"50\n".to_vec()),
        SampleEvent::ReadFailed,
        SampleEvent::Line(b"85\n".to_vec()),
    ];
    let mut writes: Vec<FanCommand> = Vec::new();
    let mut fatal = None;
    for ev in events.iter() {
        match ctl.on_event(ev) {
            Ok(Some(duty)) => writes.extend(actuation_commands(n_devices, duty)),
            Ok(None) => {},
            Err(e) => {
                fatal = Some(e);
                break;
            },
        }
    }
    assert_eq!(fatal, Some(DriverError::SampleIo));
    // Only cycle 2 actuated: one write per channel per device, all at duty 20.
    assert_eq!(writes.len(), 2 * n_devices);
    assert!(writes.iter().all(|w| w.duty == 20));
}

#[test]
fn window_capacity_rounds_the_poll_count_upward() {
    // A three-second spin-down window polled every two seconds needs two
    // slots: the spike survives exactly one further cycle.
    let mut ctl = Controller::new(demo_curve(), 3, 2);
    let mut duties = Vec::new();
    for line in [&b"85\n"[..], b"35\n", b"35\n"] {
        duties.push(ctl.on_event(&SampleEvent::Line(line.to_vec())).unwrap());
    }
    assert_eq!(duties, vec![Some(100), Some(100), None]);
}

#[test]
fn malformed_line_is_fatal_parse_error() {
    let mut ctl = Controller::with_capacity(demo_curve(), 1);
    assert_eq!(
        ctl.on_event(&SampleEvent::Line(b"garbage\n".to_vec())),
        Err(DriverError::SampleParse)
    );
}

#[test]
fn applying_a_duty_twice_issues_identical_writes() {
    let first = actuation_commands(2, 5000);
    let second = actuation_commands(2, 5000);
    assert_eq!(first, second);
    assert_eq!(
        first,
        vec![
            FanCommand { device: 0, channel: Channel::Cpu, duty: 5000 },
            FanCommand { device: 0, channel: Channel::Intake, duty: 5000 },
            FanCommand { device: 1, channel: Channel::Cpu, duty: 5000 },
            FanCommand { device: 1, channel: Channel::Intake, duty: 5000 },
        ]
    );
}

#[test]
fn channel_tokens_match_the_wire_protocol() {
    assert_eq!(channel_token(Channel::Cpu), "CPUF");
    assert_eq!(channel_token(Channel::Intake), "INTF");
}

#[test]
fn known_models_select_their_curves() {
    assert_eq!(classify("System76", "thelio-mira-r1"), Ok(CurveKind::StandardSmooth));
    assert_eq!(classify("System76", "thelio-mira-r2"), Ok(CurveKind::StandardSmooth));
    assert_eq!(classify("System76", "thelio-major-r1"), Ok(CurveKind::Threadripper2));
    assert_eq!(classify("System76", "thelio-major-r2.1"), Ok(CurveKind::Hedt));
    assert_eq!(classify("System76", "thelio-mega-r1.1"), Ok(CurveKind::Hedt));
    assert_eq!(classify("System76", "thelio-massive-b1"), Ok(CurveKind::Xeon));
}

#[test]
fn unknown_hardware_is_a_classification_error() {
    assert_eq!(classify("System76", "thelio-unknown"), Err(DriverError::Classification));
    assert_eq!(classify("OtherVendor", "thelio-major-r1"), Err(DriverError::Classification));
    assert_eq!(classify("", ""), Err(DriverError::Classification));
}

#[test]
fn unrecognized_pair_refuses_startup_before_discovery() {
    // Even with a perfectly good board on the bus, an unknown model never
    // reaches discovery: the classification error comes back alone.
    let ports = vec![PortId { vid: 0x1209, pid: 0x1776 }];
    let r = plan_startup("NotSystem76", "thelio-major-r1", &ports);
    assert_eq!(r.err(), Some(DriverError::Classification));
    // And with no ports at all, the error is the same: discovery never ran.
    let r = plan_startup("NotSystem76", "thelio-major-r1", &vec![]);
    assert_eq!(r.err(), Some(DriverError::Classification));
}

#[test]
fn startup_picks_every_matching_board() {
    let ports = vec![
        PortId { vid: 0x1209, pid: 0x1776 },
        PortId { vid: 0x046d, pid: 0xc31c },
        PortId { vid: 0x1209, pid: 0x1776 },
    ];
    let plan = plan_startup("System76", "thelio-major-b2", &ports).unwrap();
    assert_eq!(plan.kind, CurveKind::Hedt);
    assert_eq!(plan.devices, vec![0, 2]);
}

#[test]
fn no_matching_board_is_a_discovery_error() {
    let ports = vec![PortId { vid: 0x046d, pid: 0xc31c }];
    let r = plan_startup("System76", "thelio-major-b2", &ports);
    assert_eq!(r.err(), Some(DriverError::Discovery));
    let r = plan_startup("System76", "thelio-major-b2", &vec![]);
    assert_eq!(r.err(), Some(DriverError::Discovery));
}

#[test]
fn errors_describe_themselves() {
    assert_eq!(DriverError::Classification.describe(), "unsupported hardware model");
    assert_eq!(DriverError::Actuation.describe(), "failed to write duty cycle to device");
}

#[test]
fn preset_selection_reaches_the_right_table() {
    let c = curve_for_kind(CurveKind::Xeon);
    assert_eq!(c.lookup(3500), Some(3000));
    let c = curve_for_kind(CurveKind::StandardSmooth);
    assert_eq!(c.lookup(3500), None);
}
