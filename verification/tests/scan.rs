use strokers::axis::{kind_rank, AxisKind};
use strokers::scan::scan_for_funscripts;

fn listing(names: &[&str]) -> Vec<String> {
    names.iter().map(|n| (*n).to_owned()).collect()
}

#[test]
fn test_scan_main_cluster() {
    let files = listing(&[
        "vid.funscript",
        "vid.twist.funscript",
        "other.funscript",
        "vid.mp4",
        "vid.notafunscript",
    ]);
    let scan = scan_for_funscripts(&files, "vid.mp4");
    assert_eq!(scan.main.scripts.len(), 2);
    let stroke = scan.main.scripts.get(kind_rank(AxisKind::Stroke)).unwrap();
    assert_eq!(stroke.0, AxisKind::Stroke);
    assert_eq!(stroke.1, "vid.funscript");
    let twist = scan.main.scripts.get(kind_rank(AxisKind::Twist)).unwrap();
    assert_eq!(twist.1, "vid.twist.funscript");
    assert!(scan.overrides.is_empty());
}

#[test]
fn test_scan_axis_suffixes() {
    let files = listing(&[
        "movie.surge.funscript",
        "movie.sway.funscript",
        "movie.roll.funscript",
        "movie.pitch.funscript",
    ]);
    let scan = scan_for_funscripts(&files, "movie.mkv");
    assert_eq!(scan.main.scripts.len(), 4);
    assert!(scan.main.scripts.get(kind_rank(AxisKind::Surge)).is_some());
    assert!(scan.main.scripts.get(kind_rank(AxisKind::Sway)).is_some());
    assert!(scan.main.scripts.get(kind_rank(AxisKind::Roll)).is_some());
    assert!(scan.main.scripts.get(kind_rank(AxisKind::Pitch)).is_some());
    assert!(scan.main.scripts.get(kind_rank(AxisKind::Stroke)).is_none());
}

#[test]
fn test_scan_overrides() {
    let files = listing(&[
        "vid.funscript",
        "vid.soft.funscript",
        "vid.soft.twist.funscript",
        "vid.hard.funscript",
    ]);
    let scan = scan_for_funscripts(&files, "vid.mp4");
    assert_eq!(scan.main.scripts.len(), 1);
    assert_eq!(scan.overrides.len(), 2);
    let soft = scan.overrides.iter().find(|(k, _)| k == ".soft").unwrap();
    assert_eq!(soft.1.scripts.len(), 2);
    assert_eq!(
        soft.1.scripts.get(kind_rank(AxisKind::Stroke)).unwrap().1,
        "vid.soft.funscript"
    );
    assert_eq!(
        soft.1.scripts.get(kind_rank(AxisKind::Twist)).unwrap().1,
        "vid.soft.twist.funscript"
    );
    let hard = scan.overrides.iter().find(|(k, _)| k == ".hard").unwrap();
    assert_eq!(hard.1.scripts.len(), 1);
}

#[test]
fn test_scan_filename_without_extension() {
    // A content file without an extension scans under its whole name.
    let files = listing(&["plain.funscript"]);
    let scan = scan_for_funscripts(&files, "plain");
    assert_eq!(
        scan.main.scripts.get(kind_rank(AxisKind::Stroke)).unwrap().1,
        "plain.funscript"
    );
}
