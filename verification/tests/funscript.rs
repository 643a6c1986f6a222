use strokers::axis::{kind_rank, AxisKind};
use strokers::funscript::{
    normalised_from_funscript, Funscript, FunscriptAction, FunscriptAxis,
};

fn gen_funscript(inverted: bool, range: u32, pos: u32) -> Funscript {
    Funscript {
        inverted,
        range,
        actions: Vec::from([FunscriptAction { at: 0, pos }]),
        axes: Vec::new(),
    }
}

#[test]
fn test_normalised_from_funscript() {
    struct FunscriptTest {
        funscript: Funscript,
        norm_pos_expected: u32,
    }

    let tests = Vec::from([
        // Inverted false and range 100
        FunscriptTest { funscript: gen_funscript(false, 100, 0), norm_pos_expected: 0 },
        FunscriptTest { funscript: gen_funscript(false, 100, 100), norm_pos_expected: 1_000_000 },
        FunscriptTest { funscript: gen_funscript(false, 100, 50), norm_pos_expected: 500_000 },
        FunscriptTest { funscript: gen_funscript(false, 100, 25), norm_pos_expected: 250_000 },
        // Inverted true and range 100
        FunscriptTest { funscript: gen_funscript(true, 100, 0), norm_pos_expected: 1_000_000 },
        FunscriptTest { funscript: gen_funscript(true, 100, 100), norm_pos_expected: 0 },
        FunscriptTest { funscript: gen_funscript(true, 100, 50), norm_pos_expected: 500_000 },
        FunscriptTest { funscript: gen_funscript(true, 100, 25), norm_pos_expected: 750_000 },
        // Inverted false and range 90
        FunscriptTest { funscript: gen_funscript(false, 90, 0), norm_pos_expected: 0 },
        FunscriptTest { funscript: gen_funscript(false, 90, 100), norm_pos_expected: 1_000_000 },
        FunscriptTest { funscript: gen_funscript(false, 90, 50), norm_pos_expected: 500_000 },
        FunscriptTest { funscript: gen_funscript(false, 90, 25), norm_pos_expected: 250_000 },
        // Inverted true and range 90
        FunscriptTest { funscript: gen_funscript(true, 90, 0), norm_pos_expected: 1_000_000 },
        FunscriptTest { funscript: gen_funscript(true, 90, 100), norm_pos_expected: 0 },
        FunscriptTest { funscript: gen_funscript(true, 90, 50), norm_pos_expected: 500_000 },
        FunscriptTest { funscript: gen_funscript(true, 90, 25), norm_pos_expected: 750_000 },
    ]);

    for test in tests.iter() {
        let result = normalised_from_funscript(&test.funscript);
        assert_eq!(test.norm_pos_expected, result[0].norm_pos);
    }
}

#[test]
fn test_normalised_keeps_timestamps_and_caps() {
    let f = Funscript {
        inverted: false,
        range: 100,
        actions: vec![
            FunscriptAction { at: 10, pos: 0 },
            FunscriptAction { at: 20, pos: 250 },
        ],
        axes: Vec::new(),
    };
    let r = normalised_from_funscript(&f);
    assert_eq!(r[0].at, 10);
    assert_eq!(r[1].at, 20);
    // A position over the raw scale caps at full scale.
    assert_eq!(r[1].norm_pos, 1_000_000);
}

#[test]
fn test_fixup_sets_unset_range() {
    let mut f = Funscript {
        inverted: false,
        range: 0,
        actions: vec![
            FunscriptAction { at: 0, pos: 40 },
            FunscriptAction { at: 1, pos: 130 },
        ],
        axes: Vec::new(),
    };
    f.fixup();
    assert_eq!(f.range, 130);
}

#[test]
fn test_fixup_floors_range_at_100() {
    let mut f = Funscript {
        inverted: false,
        range: 0,
        actions: vec![FunscriptAction { at: 0, pos: 40 }],
        axes: Vec::new(),
    };
    f.fixup();
    assert_eq!(f.range, 100);

    let mut empty = Funscript { inverted: false, range: 0, actions: vec![], axes: Vec::new() };
    empty.fixup();
    assert_eq!(empty.range, 100);
}

#[test]
fn test_fixup_keeps_set_range() {
    let mut f = gen_funscript(false, 90, 100);
    f.fixup();
    assert_eq!(f.range, 90);
}

#[test]
fn test_get_axes_funscripts() {
    let mut f = Funscript {
        inverted: true,
        range: 90,
        actions: vec![],
        axes: vec![
            FunscriptAxis {
                id: "R0".to_owned(),
                actions: vec![FunscriptAction { at: 5, pos: 7 }],
            },
            FunscriptAxis { id: "XX".to_owned(), actions: vec![] },
            FunscriptAxis {
                id: "R0".to_owned(),
                actions: vec![FunscriptAction { at: 9, pos: 9 }],
            },
            FunscriptAxis {
                id: "L1".to_owned(),
                actions: vec![FunscriptAction { at: 1, pos: 2 }],
            },
        ],
    };
    let map = f.get_axes_funscripts();
    // The unrecognised axis is dropped; of the two R0 entries the later
    // wins; the inherited flags come from the parent script.
    assert_eq!(map.len(), 2);
    let twist = &map.get(kind_rank(AxisKind::Twist)).unwrap().1;
    assert!(twist.inverted);
    assert_eq!(twist.range, 90);
    assert_eq!(twist.actions.len(), 1);
    assert_eq!(twist.actions[0].at, 9);
    assert!(twist.axes.is_empty());
    let surge = &map.get(kind_rank(AxisKind::Surge)).unwrap().1;
    assert_eq!(surge.actions[0].at, 1);
    assert!(map.get(kind_rank(AxisKind::Stroke)).is_none());
}
