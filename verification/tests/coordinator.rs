use strokers::axis::{kind_rank, AxisId, AxisKind};
use strokers::config::LimitsConfig;
use strokers::coordinator::{Coordinator, DeviceCommand, PlaythreadMessage};
use strokers::keybindings::{AxisLimitChangeCommand, KeyCommand};
use strokers::movement::Movement;
use strokers::tcode::{axes_from_map, build_axis_map, movement_to_tcode};
use strokers::tracker::NormalisedAction;
use strokers::vecmap::VecMap;

fn device_coordinator(speed_limit: u32) -> Coordinator {
    // The device reports a stroke axis and a twist axis.
    let lines = vec!["L0 0 9999 Up".to_owned(), "R0 0 9999 Twist".to_owned()];
    let map = build_axis_map(&lines);
    let axes = axes_from_map(&map);
    let mut limits = VecMap::new();
    limits.insert(
        kind_rank(AxisKind::Stroke),
        (
            AxisKind::Stroke,
            LimitsConfig { speed: speed_limit, default_min: 0, default_max: 1_000_000 },
        ),
    );
    Coordinator::new(axes, limits)
}

fn ramp_timeline() -> Vec<NormalisedAction> {
    // The timeline [(0, 0), (1000, 100)] of a range-100 file, normalised.
    vec![
        NormalisedAction { at: 0, norm_pos: 0 },
        NormalisedAction { at: 1000, norm_pos: 1_000_000 },
    ]
}

fn expect_single_move(commands: &[DeviceCommand]) -> Movement {
    assert_eq!(commands.len(), 1);
    match commands[0] {
        DeviceCommand::Move(m) => m,
        DeviceCommand::Stop => panic!("expected a movement, got a stop"),
    }
}

#[test]
fn test_end_to_end_timeline_playback() {
    let mut c = device_coordinator(2_000_000_000);
    let out = c.handle_event(
        PlaythreadMessage::UseFunscript {
            axis_kind: AxisKind::Stroke,
            normalised_actions: ramp_timeline(),
        },
        0,
    );
    assert!(out.commands.is_empty());

    // The first tick consumes the initial zero-time action.
    let out = c.handle_event(PlaythreadMessage::TimeChange { now_millis: 0 }, 0);
    let m = expect_single_move(&out.commands);
    assert_eq!(m.axis(), AxisId(0));
    assert_eq!(m.target(), 0);

    // At 500 ms the boundary action (due at 1000) is commanded early, with
    // a ramp lasting exactly until its deadline, towards full scale.
    let out = c.handle_event(PlaythreadMessage::TimeChange { now_millis: 500 }, 500);
    let m = expect_single_move(&out.commands);
    assert_eq!(m.axis(), AxisId(0));
    assert_eq!(m.target(), 1_000_000);
    assert_eq!(m.ramp_time_milliseconds(), 500);

    // On the wire that movement addresses the L0 axis.
    let map = build_axis_map(&vec!["L0 0 9999 Up".to_owned(), "R0 0 9999 Twist".to_owned()]);
    assert_eq!(movement_to_tcode(&map, &m).unwrap(), "L09999I0500");

    // The cursor is exhausted: nothing more is dispatched.
    let out = c.handle_event(PlaythreadMessage::TimeChange { now_millis: 1000 }, 1000);
    assert!(out.commands.is_empty());
    let out = c.handle_event(PlaythreadMessage::TimeChange { now_millis: 1500 }, 1500);
    assert!(out.commands.is_empty());
    assert!(out.failure.is_none());
}

#[test]
fn test_end_to_end_speed_limited() {
    // With a ceiling of one full scale per second, the 500 ms ramp to full
    // scale from mid-scale gets clamped to what that ceiling allows.
    let mut c = device_coordinator(1_000_000);
    c.handle_event(
        PlaythreadMessage::UseFunscript {
            axis_kind: AxisKind::Stroke,
            normalised_actions: ramp_timeline(),
        },
        0,
    );
    let out = c.handle_event(PlaythreadMessage::TimeChange { now_millis: 0 }, 0);
    // From the initial estimate 0.5 to 0.0 in effectively 1 ms: clamped to
    // 0.001 of scale below 0.5.
    let m = expect_single_move(&out.commands);
    assert_eq!(m.target(), 499_000);
    assert_eq!(m.ramp_time_milliseconds(), 0);

    let out = c.handle_event(PlaythreadMessage::TimeChange { now_millis: 500 }, 500);
    let m = expect_single_move(&out.commands);
    // From 499000 (ramp long finished) towards 1.0 over 500 ms: at most
    // half a scale per half second.
    assert_eq!(m.target(), 999_000);
    assert_eq!(m.ramp_time_milliseconds(), 500);
}

#[test]
fn test_unmatched_axis_kind_is_dropped() {
    let mut c = device_coordinator(2_000_000_000);
    // The device has no roll axis, so this timeline goes nowhere.
    let out = c.handle_event(
        PlaythreadMessage::UseFunscript {
            axis_kind: AxisKind::Roll,
            normalised_actions: ramp_timeline(),
        },
        0,
    );
    assert!(out.commands.is_empty());
    let out = c.handle_event(PlaythreadMessage::TimeChange { now_millis: 500 }, 500);
    assert!(out.commands.is_empty());
}

#[test]
fn test_seek_dispatches_upcoming_action() {
    let mut c = device_coordinator(2_000_000_000);
    c.handle_event(
        PlaythreadMessage::UseFunscript {
            axis_kind: AxisKind::Stroke,
            normalised_actions: ramp_timeline(),
        },
        0,
    );
    let out = c.handle_event(PlaythreadMessage::Seek { now_millis: 500 }, 100);
    let m = expect_single_move(&out.commands);
    assert_eq!(m.target(), 1_000_000);
    // Unpaused: the ramp lasts until the action's deadline.
    assert_eq!(m.ramp_time_milliseconds(), 500);
}

#[test]
fn test_seek_while_paused_uses_long_ramp() {
    let mut c = device_coordinator(2_000_000_000);
    c.handle_event(
        PlaythreadMessage::UseFunscript {
            axis_kind: AxisKind::Stroke,
            normalised_actions: ramp_timeline(),
        },
        0,
    );
    let out = c.handle_event(PlaythreadMessage::PauseChange { paused: true }, 50);
    assert_eq!(out.commands.len(), 1);
    assert!(matches!(out.commands[0], DeviceCommand::Stop));

    let out = c.handle_event(PlaythreadMessage::Seek { now_millis: 500 }, 100);
    let m = expect_single_move(&out.commands);
    // Paused: a fixed gentle one-second ramp.
    assert_eq!(m.ramp_time_milliseconds(), 1000);
}

#[test]
fn test_time_change_ignored_while_paused() {
    let mut c = device_coordinator(2_000_000_000);
    c.handle_event(
        PlaythreadMessage::UseFunscript {
            axis_kind: AxisKind::Stroke,
            normalised_actions: ramp_timeline(),
        },
        0,
    );
    c.handle_event(PlaythreadMessage::PauseChange { paused: true }, 0);
    let out = c.handle_event(PlaythreadMessage::TimeChange { now_millis: 500 }, 500);
    assert!(out.commands.is_empty());
    // Unpausing performs no corrective resynchronisation.
    let out = c.handle_event(PlaythreadMessage::PauseChange { paused: false }, 600);
    assert!(out.commands.is_empty());
}

#[test]
fn test_shutdown_stops_device() {
    let mut c = device_coordinator(2_000_000_000);
    let out = c.handle_event(PlaythreadMessage::Shutdown, 0);
    assert_eq!(out.commands.len(), 1);
    assert!(matches!(out.commands[0], DeviceCommand::Stop));
    assert!(out.shutdown);
}

#[test]
fn test_video_starting_restarts_discovery() {
    let mut c = device_coordinator(2_000_000_000);
    let out = c.handle_event(PlaythreadMessage::VideoStarting, 0);
    assert!(out.restart_discovery);
    assert!(out.commands.is_empty());
    assert!(!out.shutdown);
}

#[test]
fn test_axis_limit_change_event() {
    let mut c = device_coordinator(2_000_000_000);
    c.handle_event(
        PlaythreadMessage::UseFunscript {
            axis_kind: AxisKind::Stroke,
            normalised_actions: ramp_timeline(),
        },
        0,
    );
    assert_eq!(c.limits_of_kind(AxisKind::Stroke), Some((0, 1_000_000)));
    let out = c.handle_event(
        PlaythreadMessage::KeyCommand(KeyCommand::AxisLimitChange(AxisLimitChangeCommand {
            axis: AxisKind::Stroke,
            min_by: None,
            min_new: Some(300_000),
            max_by: Some(-400_000),
            max_new: None,
        })),
        0,
    );
    assert!(out.commands.is_empty());
    assert_eq!(c.limits_of_kind(AxisKind::Stroke), Some((300_000, 600_000)));
    // No live twist axis: nothing to report or change.
    assert_eq!(c.limits_of_kind(AxisKind::Twist), None);
}

#[test]
fn test_new_timeline_replaces_old_one() {
    let mut c = device_coordinator(2_000_000_000);
    c.handle_event(
        PlaythreadMessage::UseFunscript {
            axis_kind: AxisKind::Stroke,
            normalised_actions: ramp_timeline(),
        },
        0,
    );
    // Exhaust the first timeline.
    c.handle_event(PlaythreadMessage::TimeChange { now_millis: 0 }, 0);
    c.handle_event(PlaythreadMessage::TimeChange { now_millis: 500 }, 500);
    let out = c.handle_event(PlaythreadMessage::TimeChange { now_millis: 600 }, 600);
    assert!(out.commands.is_empty());
    // A newly discovered timeline for the same axis replaces the old one
    // outright, cursor and all.
    let replacement = vec![NormalisedAction { at: 700, norm_pos: 250_000 }];
    c.handle_event(
        PlaythreadMessage::UseFunscript {
            axis_kind: AxisKind::Stroke,
            normalised_actions: replacement,
        },
        600,
    );
    let out = c.handle_event(PlaythreadMessage::TimeChange { now_millis: 650 }, 650);
    let m = expect_single_move(&out.commands);
    assert_eq!(m.target(), 250_000);
    assert_eq!(m.ramp_time_milliseconds(), 50);
}

#[test]
fn test_overlong_deadline_fails_dispatch() {
    let mut c = device_coordinator(2_000_000_000);
    let far = vec![
        NormalisedAction { at: 0, norm_pos: 0 },
        NormalisedAction { at: 20_000_000, norm_pos: 1_000_000 },
    ];
    c.handle_event(
        PlaythreadMessage::UseFunscript {
            axis_kind: AxisKind::Stroke,
            normalised_actions: far,
        },
        0,
    );
    let out = c.handle_event(PlaythreadMessage::TimeChange { now_millis: 0 }, 0);
    assert!(out.failure.is_none());
    // The next due action lies further away than the longest ramp the
    // protocol can express: the step fails.
    let out = c.handle_event(PlaythreadMessage::TimeChange { now_millis: 1 }, 1);
    assert!(out.failure.is_some());
    assert!(out.commands.is_empty());
}
