use strokers::tracker::{check_actions_wf, FunscriptPlaystate, NormalisedAction};

fn actions() -> Vec<NormalisedAction> {
    vec![
        NormalisedAction { at: 0, norm_pos: 100_000 },
        NormalisedAction { at: 1000, norm_pos: 900_000 },
        NormalisedAction { at: 2000, norm_pos: 300_000 },
    ]
}

#[test]
fn test_check_actions_wf() {
    assert!(check_actions_wf(&actions()));
    let unsorted = vec![
        NormalisedAction { at: 1000, norm_pos: 0 },
        NormalisedAction { at: 0, norm_pos: 0 },
    ];
    assert!(!check_actions_wf(&unsorted));
    let out_of_scale = vec![NormalisedAction { at: 0, norm_pos: 1_000_001 }];
    assert!(!check_actions_wf(&out_of_scale));
}

#[test]
fn test_tick_runs_one_ahead() {
    let mut t = FunscriptPlaystate::new(actions());
    // A tick is due immediately; the first action comes back and the next
    // due time becomes that action's own timestamp.
    assert_eq!(t.tick(0), Some(NormalisedAction { at: 0, norm_pos: 100_000 }));
    // Still due (the due time is the returned action's time, not `now`),
    // so the tracker hands out the following action ahead of schedule.
    assert_eq!(t.tick(0), Some(NormalisedAction { at: 1000, norm_pos: 900_000 }));
    // Now nothing is due until 1000.
    assert_eq!(t.tick(500), None);
    assert_eq!(t.tick(1000), Some(NormalisedAction { at: 2000, norm_pos: 300_000 }));
}

#[test]
fn test_tick_exhaustion() {
    let mut t = FunscriptPlaystate::new(actions());
    assert!(t.tick(10_000).is_some());
    assert!(t.tick(10_000).is_some());
    assert!(t.tick(10_000).is_some());
    // The cursor has passed the last action: every further tick returns
    // nothing, for good.
    for _ in 0..4 {
        assert_eq!(t.tick(u32::MAX), None);
    }
}

#[test]
fn test_seek_relocates_forward() {
    let mut t = FunscriptPlaystate::new(actions());
    t.seek(500);
    // The cursor lands on the first action strictly after 500.
    assert_eq!(t.tick(500), Some(NormalisedAction { at: 1000, norm_pos: 900_000 }));
}

#[test]
fn test_seek_relocates_backward() {
    let mut t = FunscriptPlaystate::new(actions());
    assert!(t.tick(5000).is_some());
    assert!(t.tick(5000).is_some());
    t.seek(0);
    assert_eq!(t.tick(0), Some(NormalisedAction { at: 1000, norm_pos: 900_000 }));
}

#[test]
fn test_seek_exact_timestamp_skips_it() {
    let mut t = FunscriptPlaystate::new(actions());
    // Seeking to exactly 1000 looks for the first action after 1000.
    t.seek(1000);
    assert_eq!(t.tick(1000), Some(NormalisedAction { at: 2000, norm_pos: 300_000 }));
}

#[test]
fn test_seek_past_end_exhausts() {
    let mut t = FunscriptPlaystate::new(actions());
    t.seek(9_999);
    assert_eq!(t.tick(9_999), None);
    assert_eq!(t.tick(u32::MAX), None);
}

#[test]
fn test_empty_timeline_never_fires() {
    let mut t = FunscriptPlaystate::new(Vec::new());
    assert_eq!(t.tick(0), None);
    t.seek(500);
    assert_eq!(t.tick(500), None);
    assert_eq!(t.tick(u32::MAX), None);
}

#[test]
fn test_ticks_never_replay_backwards() {
    // Absent a seek, returned timestamps never decrease.
    let mut t = FunscriptPlaystate::new(actions());
    let mut last_at: Option<u32> = None;
    let clock = [0u32, 0, 250, 900, 1000, 1500, 2000, 3000];
    for now in clock {
        if let Some(action) = t.tick(now) {
            if let Some(prev) = last_at {
                assert!(action.at >= prev);
            }
            last_at = Some(action.at);
        }
    }
}
