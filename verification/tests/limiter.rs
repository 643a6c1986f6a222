use strokers::axis::AxisKind;
use strokers::keybindings::AxisLimitChangeCommand;
use strokers::limiter::{update_limits, AxisLimiter, LimitChangeError};

fn limiter_at_rest(speed_limit: u32, min: u32, max: u32, position: u32) -> AxisLimiter {
    AxisLimiter {
        speed_limit,
        last_command_start_time: 0,
        last_command_start: position,
        last_command_target_time: 0,
        last_command_target: position,
        min,
        max,
    }
}

#[test]
fn test_estimate_interpolates() {
    let lim = AxisLimiter {
        speed_limit: 1_000_000,
        last_command_start_time: 1000,
        last_command_start: 200_000,
        last_command_target_time: 2000,
        last_command_target: 600_000,
        min: 0,
        max: 1_000_000,
    };
    // Before the motion starts: the start position.
    assert_eq!(lim.estimate_current_position(500), 200_000);
    // Halfway through: halfway there.
    assert_eq!(lim.estimate_current_position(1500), 400_000);
    // After the target time: the target.
    assert_eq!(lim.estimate_current_position(2500), 600_000);
}

#[test]
fn test_estimate_interpolates_downwards() {
    let lim = AxisLimiter {
        speed_limit: 1_000_000,
        last_command_start_time: 0,
        last_command_start: 800_000,
        last_command_target_time: 1000,
        last_command_target: 0,
        min: 0,
        max: 1_000_000,
    };
    assert_eq!(lim.estimate_current_position(250), 600_000);
}

#[test]
fn test_limit_command_passes_slow_motion() {
    let lim = limiter_at_rest(1_000_000, 0, 1_000_000, 500_000);
    // 0.1 full scale in one second: well under one full scale per second.
    assert_eq!(lim.limit_command(1000, 600_000, 1000), (600_000, 1000));
}

#[test]
fn test_limit_command_clamps_fast_motion() {
    let lim = limiter_at_rest(1_000_000, 0, 1_000_000, 500_000);
    // Half the scale in 100 ms implies 5 full scales per second; at the
    // ceiling of 1 full scale per second only 0.1 of the scale is covered,
    // and the duration stays as asked.
    assert_eq!(lim.limit_command(1000, 1_000_000, 100), (600_000, 100));
}

#[test]
fn test_limit_command_clamps_downward_motion() {
    let lim = limiter_at_rest(1_000_000, 0, 1_000_000, 500_000);
    assert_eq!(lim.limit_command(1000, 0, 100), (400_000, 100));
}

#[test]
fn test_limit_command_remaps_into_window() {
    let lim = limiter_at_rest(2_000_000_000, 200_000, 700_000, 500_000);
    // raw 0.5 of the window [0.2, 0.7] is 0.45.
    assert_eq!(lim.limit_command(1000, 500_000, 1000), (450_000, 1000));
}

#[test]
fn test_limit_command_inverted_window() {
    // min above max inverts the motion range on purpose.
    let lim = limiter_at_rest(2_000_000_000, 800_000, 200_000, 500_000);
    let (target, duration) = lim.limit_command(1000, 250_000, 1000);
    assert_eq!(target, 650_000);
    assert_eq!(duration, 1000);
    assert!(200_000 <= target && target <= 800_000);
}

#[test]
fn test_limit_command_idempotent() {
    // Same state, same inputs: identical output, as often as asked.
    let lim = limiter_at_rest(300_000, 0, 1_000_000, 500_000);
    let first = lim.limit_command(12_345, 777_777, 250);
    for _ in 0..5 {
        assert_eq!(lim.limit_command(12_345, 777_777, 250), first);
    }
}

#[test]
fn test_limit_command_zero_duration_uses_one_ms() {
    let lim = limiter_at_rest(1_000_000, 0, 1_000_000, 500_000);
    // One millisecond at one full scale per second covers 0.001 of scale.
    assert_eq!(lim.limit_command(1000, 1_000_000, 0), (501_000, 0));
}

#[test]
fn test_notify_commanded_moves_baseline() {
    let mut lim = limiter_at_rest(1_000_000, 0, 1_000_000, 500_000);
    lim.notify_commanded(1000, 700_000, 400);
    assert_eq!(lim.last_command_start, 500_000);
    assert_eq!(lim.last_command_start_time, 1000);
    assert_eq!(lim.last_command_target, 700_000);
    assert_eq!(lim.last_command_target_time, 1400);
    // Estimates now extrapolate the committed motion.
    assert_eq!(lim.estimate_current_position(1200), 600_000);
}

#[test]
fn test_update_limits_relative() {
    // A current minimum of 0.45 moved by 0.1 becomes 0.55.
    let mut lim = limiter_at_rest(1_000_000, 450_000, 900_000, 500_000);
    let cmd = AxisLimitChangeCommand {
        axis: AxisKind::Stroke,
        min_by: Some(100_000),
        min_new: None,
        max_by: None,
        max_new: None,
    };
    assert!(update_limits(&cmd, &mut lim).is_ok());
    assert_eq!(lim.min, 550_000);
    assert_eq!(lim.max, 900_000);
}

#[test]
fn test_update_limits_relative_clamps() {
    let mut lim = limiter_at_rest(1_000_000, 100_000, 950_000, 500_000);
    let cmd = AxisLimitChangeCommand {
        axis: AxisKind::Stroke,
        min_by: Some(-300_000),
        min_new: None,
        max_by: Some(100_000),
        max_new: None,
    };
    assert!(update_limits(&cmd, &mut lim).is_ok());
    assert_eq!(lim.min, 0);
    assert_eq!(lim.max, 1_000_000);
}

#[test]
fn test_update_limits_absolute_out_of_range_rejected() {
    // Setting the minimum to 1.5 fails and leaves it unchanged.
    let mut lim = limiter_at_rest(1_000_000, 450_000, 900_000, 500_000);
    let cmd = AxisLimitChangeCommand {
        axis: AxisKind::Stroke,
        min_by: None,
        min_new: Some(1_500_000),
        max_by: None,
        max_new: None,
    };
    assert_eq!(update_limits(&cmd, &mut lim).unwrap_err(), LimitChangeError::OutOfRange);
    assert_eq!(lim.min, 450_000);
    assert_eq!(lim.max, 900_000);
}

#[test]
fn test_update_limits_conflicting_rejected() {
    // Both a relative and an absolute change for one bound is an error.
    let mut lim = limiter_at_rest(1_000_000, 450_000, 900_000, 500_000);
    let cmd = AxisLimitChangeCommand {
        axis: AxisKind::Stroke,
        min_by: Some(100_000),
        min_new: Some(500_000),
        max_by: None,
        max_new: None,
    };
    assert_eq!(
        update_limits(&cmd, &mut lim).unwrap_err(),
        LimitChangeError::ConflictingParameters
    );
    assert_eq!(lim.min, 450_000);
}

#[test]
fn test_update_limits_absolute() {
    let mut lim = limiter_at_rest(1_000_000, 450_000, 900_000, 500_000);
    let cmd = AxisLimitChangeCommand {
        axis: AxisKind::Stroke,
        min_by: None,
        min_new: Some(250_000),
        max_by: None,
        max_new: Some(750_000),
    };
    assert!(update_limits(&cmd, &mut lim).is_ok());
    assert_eq!(lim.min, 250_000);
    assert_eq!(lim.max, 750_000);
}
