use strokers::axis::AxisId;
use strokers::movement::Movement;
use strokers::tcode::{
    build_axis_map, axes_from_map, enumerate_axes_query, identify_query, movement_to_tcode,
    session_description, stop_command, version_query, AxisLineParseError, DiscoveredAxisInfo,
};
use strokers::vecmap::VecMap;

#[test]
fn test_movement_to_tcode() {
    let mut axis_map = VecMap::new();
    axis_map.insert(
        AxisId(1).0,
        DiscoveredAxisInfo {
            tcode_axis_name: "L0".to_owned(),
            preferred_min: 0,
            preferred_max: 9999,
            identified_name: "Up".to_owned(),
        },
    );
    assert_eq!(
        movement_to_tcode(&axis_map, &Movement::new(AxisId(1), 750_000, 42).unwrap()).unwrap(),
        "L07500I0042"
    );
}

#[test]
fn test_movement_to_tcode_truncates() {
    // 0.99995 of full scale must truncate to 9999, never round to 10000.
    let mut axis_map = VecMap::new();
    axis_map.insert(
        1,
        DiscoveredAxisInfo {
            tcode_axis_name: "L0".to_owned(),
            preferred_min: 0,
            preferred_max: 9999,
            identified_name: "Up".to_owned(),
        },
    );
    assert_eq!(
        movement_to_tcode(&axis_map, &Movement::new(AxisId(1), 999_950, 1).unwrap()).unwrap(),
        "L09999I0001"
    );
    // Full scale also caps at 9999.
    assert_eq!(
        movement_to_tcode(&axis_map, &Movement::new(AxisId(1), 1_000_000, 1).unwrap()).unwrap(),
        "L09999I0001"
    );
}

#[test]
fn test_movement_to_tcode_long_ramp() {
    let mut axis_map = VecMap::new();
    axis_map.insert(
        0,
        DiscoveredAxisInfo {
            tcode_axis_name: "R1".to_owned(),
            preferred_min: 0,
            preferred_max: 9999,
            identified_name: "Roll".to_owned(),
        },
    );
    assert_eq!(
        movement_to_tcode(&axis_map, &Movement::new(AxisId(0), 0, 1_234_567).unwrap()).unwrap(),
        "R10000I1234567"
    );
}

#[test]
fn test_movement_to_tcode_unknown_axis() {
    let axis_map = VecMap::new();
    let movement = Movement::new(AxisId(3), 500_000, 100).unwrap();
    assert!(movement_to_tcode(&axis_map, &movement).is_err());
}

#[test]
fn test_parse_axis_line() {
    let info = DiscoveredAxisInfo::parse_line("L0 0 9999 Up").unwrap();
    assert_eq!(info.tcode_axis_name, "L0");
    assert_eq!(info.preferred_min, 0);
    assert_eq!(info.preferred_max, 9999);
    assert_eq!(info.identified_name, "Up");
}

#[test]
fn test_parse_axis_line_extra_fields_ignored() {
    let info = DiscoveredAxisInfo::parse_line("R0 10 5000 Twist extra words").unwrap();
    assert_eq!(info.tcode_axis_name, "R0");
    assert_eq!(info.preferred_min, 10);
    assert_eq!(info.preferred_max, 5000);
    assert_eq!(info.identified_name, "Twist");
}

#[test]
fn test_parse_axis_line_errors() {
    assert_eq!(
        DiscoveredAxisInfo::parse_line("L0 0").unwrap_err(),
        AxisLineParseError::NotEnoughFields
    );
    assert_eq!(
        DiscoveredAxisInfo::parse_line("L0 x 9999 Up").unwrap_err(),
        AxisLineParseError::BadPreferredMin
    );
    assert_eq!(
        DiscoveredAxisInfo::parse_line("L0 0 banana Up").unwrap_err(),
        AxisLineParseError::BadPreferredMax
    );
    // 99999 overflows a u16.
    assert_eq!(
        DiscoveredAxisInfo::parse_line("L0 0 99999 Up").unwrap_err(),
        AxisLineParseError::BadPreferredMax
    );
    // A double space makes an empty field, as the device protocol is
    // single-space separated.
    assert_eq!(
        DiscoveredAxisInfo::parse_line("L0  0 9999 Up").unwrap_err(),
        AxisLineParseError::BadPreferredMin
    );
}

#[test]
fn test_build_axis_map_skips_bad_lines() {
    let lines = vec![
        "L0 0 9999 Up".to_owned(),
        "garbage".to_owned(),
        "R0 0 9999 Twist".to_owned(),
    ];
    let map = build_axis_map(&lines);
    // A line that fails to parse still uses up its axis id.
    assert_eq!(map.get(0).unwrap().tcode_axis_name, "L0");
    assert!(map.get(1).is_none());
    assert_eq!(map.get(2).unwrap().tcode_axis_name, "R0");
}

#[test]
fn test_axes_from_map_drops_unknown_names() {
    let lines = vec![
        "L0 0 9999 Up".to_owned(),
        "ZZ 0 9999 Mystery".to_owned(),
        "R0 0 9999 Twist".to_owned(),
    ];
    let map = build_axis_map(&lines);
    let axes = axes_from_map(&map);
    assert_eq!(axes.len(), 2);
    assert_eq!(axes[0].axis_id, AxisId(0));
    assert_eq!(axes[0].axis_kind, strokers::axis::AxisKind::Stroke);
    assert_eq!(axes[1].axis_id, AxisId(2));
    assert_eq!(axes[1].axis_kind, strokers::axis::AxisKind::Twist);
}

#[test]
fn test_protocol_constant_lines() {
    assert_eq!(identify_query(), "D0");
    assert_eq!(version_query(), "D1");
    assert_eq!(enumerate_axes_query(), "D2");
    assert_eq!(stop_command(), "DSTOP");
}

#[test]
fn test_session_description() {
    assert_eq!(session_description("OSR2", "v3.3"), "OSR2 (v3.3)");
}
