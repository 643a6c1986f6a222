use strokers::axis::{AxisId, AxisKind};
use strokers::device_debug::DebugStroker;
use strokers::movement::Movement;

#[test]
fn test_debug_stroker_axes() {
    let mut d = DebugStroker::new();
    let axes = d.axes();
    assert_eq!(axes.len(), 6);
    assert_eq!(axes[0].axis_id, AxisId(1));
    assert_eq!(axes[0].axis_kind, AxisKind::Stroke);
    assert_eq!(axes[5].axis_id, AxisId(6));
    assert_eq!(axes[5].axis_kind, AxisKind::Pitch);
}

#[test]
fn test_debug_stroker_movement_checks_axis() {
    let mut d = DebugStroker::new();
    let ok = Movement::new(AxisId(3), 500_000, 100).unwrap();
    assert!(d.movement(&ok).is_ok());
    let bad = Movement::new(AxisId(7), 500_000, 100).unwrap();
    assert!(d.movement(&bad).is_err());
}

#[test]
fn test_debug_stroker_stop_and_description() {
    let mut d = DebugStroker::new();
    assert!(d.stop().is_ok());
    assert_eq!(d.description().unwrap(), "DebugStroker");
}
