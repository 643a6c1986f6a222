use strokers::axis::{AxisId, AxisKind};
use strokers::movement::{Movement, MAX_RAMP_TIME_MS, POSITION_SCALE};

#[test]
fn test_movement_new_valid_keeps_fields() {
    let m = Movement::new(AxisId(7), 123_456, 42).unwrap();
    assert_eq!(m.axis(), AxisId(7));
    assert_eq!(m.target(), 123_456);
    assert_eq!(m.ramp_time_milliseconds(), 42);
}

#[test]
fn test_movement_new_boundaries() {
    assert!(Movement::new(AxisId(0), 0, 0).is_some());
    assert!(Movement::new(AxisId(0), POSITION_SCALE, MAX_RAMP_TIME_MS).is_some());
}

#[test]
fn test_movement_new_rejects_target_out_of_scale() {
    assert!(Movement::new(AxisId(0), POSITION_SCALE + 1, 0).is_none());
    assert!(Movement::new(AxisId(0), u32::MAX, 0).is_none());
}

#[test]
fn test_movement_new_rejects_overlong_ramp() {
    assert!(Movement::new(AxisId(0), 0, MAX_RAMP_TIME_MS + 1).is_none());
    assert!(Movement::new(AxisId(0), 0, u32::MAX).is_none());
}

#[test]
fn test_axis_kind_from_tcode_names() {
    assert_eq!(AxisKind::try_from_tcode_axis_name("L0").unwrap(), AxisKind::Stroke);
    assert_eq!(AxisKind::try_from_tcode_axis_name("L1").unwrap(), AxisKind::Surge);
    assert_eq!(AxisKind::try_from_tcode_axis_name("L2").unwrap(), AxisKind::Sway);
    assert_eq!(AxisKind::try_from_tcode_axis_name("R0").unwrap(), AxisKind::Twist);
    assert_eq!(AxisKind::try_from_tcode_axis_name("R1").unwrap(), AxisKind::Roll);
    assert_eq!(AxisKind::try_from_tcode_axis_name("R2").unwrap(), AxisKind::Pitch);
    assert_eq!(AxisKind::try_from_tcode_axis_name("V0").unwrap(), AxisKind::Vibration);
    assert_eq!(AxisKind::try_from_tcode_axis_name("A0").unwrap(), AxisKind::Valve);
    assert_eq!(AxisKind::try_from_tcode_axis_name("A1").unwrap(), AxisKind::Suction);
    assert_eq!(AxisKind::try_from_tcode_axis_name("A2").unwrap(), AxisKind::Lubricant);
    assert!(AxisKind::try_from_tcode_axis_name("V1").is_err());
    assert!(AxisKind::try_from_tcode_axis_name("L00").is_err());
    assert!(AxisKind::try_from_tcode_axis_name("").is_err());
}
