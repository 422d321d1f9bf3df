//! Roll constraints on artifact substats.
use good_scanner::scanner::common::roll_solver::{
    advance_selection, compute_initial_value, find_assignment, roll_table_lookup, roll_tiers,
    solve, valid_roll_counts, validate_substats, OcrCandidate, SolverInput, TENTH,
};

/// A value given in tenths.
fn v(tenths: i64) -> i64 {
    tenths * TENTH
}

#[test]
fn test_roll_tiers_exist() {
    assert!(roll_tiers("hp", 5).is_some());
    assert!(roll_tiers("critDMG_", 4).is_some());
    assert!(roll_tiers("nonexistent", 5).is_none());
}

#[test]
fn test_roll_table_lookup() {
    // 5★ HP% single roll tier 4 → 5.83% → displays as 5.8 → in table
    let mask = roll_table_lookup("hp_", 5, v(58));
    assert!(mask.is_some());
    assert!(mask.unwrap() & 0b00000001 != 0); // 1 roll valid

    // 5★ ATK flat single roll tier 4 → 19.45 → displays as 19 → in table
    assert!(roll_table_lookup("atk", 5, v(190)).is_some());

    // 5★ HP% two rolls: 11.7 → in table with 2 rolls valid
    let mask = roll_table_lookup("hp_", 5, v(117)).unwrap();
    assert!(mask & 0b00000010 != 0); // 2 rolls valid

    // 5★ Crit Rate two rolls: 7.8 → in table with 2 rolls valid
    let mask = roll_table_lookup("critRate_", 5, v(78)).unwrap();
    assert!(mask & 0b00000010 != 0);
}

#[test]
fn test_impossible_value() {
    // 5★ HP% = 99.9 is impossible — not in roll table
    assert!(roll_table_lookup("hp_", 5, v(999)).is_none());
}

#[test]
fn test_validate_simple_artifact() {
    // 5★ level 20 with 4 substats (all single-roll values = level 0 artifact)
    // Actually at level 20, total_rolls = 4 + 5 = 9 or 3 + 5 = 8.
    // Let's test a level 0 artifact with 3 substats (init=3, total=3).
    assert!(validate_substats(5, 0, &[
        ("critRate_", v(39)),   // tier 4: 3.89 → 3.9
        ("critDMG_", v(78)),    // tier 4: 7.77 → 7.8
        ("atk_", v(58)),        // tier 4: 5.83 → 5.8
    ]));
}

#[test]
fn test_solve_returns_result() {
    let input = SolverInput {
        rarity: 5,
        level_candidates: vec![0],
        substat_candidates: vec![
            vec![OcrCandidate { key: "critRate_".into(), value: v(39), inactive: false }],
            vec![OcrCandidate { key: "critDMG_".into(), value: v(78), inactive: false }],
            vec![OcrCandidate { key: "atk_".into(), value: v(58), inactive: false }],
        ],
    };
    let result = solve(&input);
    assert!(result.is_some());
    let r = result.unwrap();
    assert_eq!(r.total_rolls, 3);
    assert_eq!(r.initial_substat_count, 3);
    assert_eq!(r.substats.len(), 3);
    // Each should have roll_count = 1
    for s in &r.substats {
        assert_eq!(s.roll_count, 1);
        assert!(s.initial_value.is_some());
    }
}

#[test]
fn test_solve_dual_candidates() {
    // Two OCR engines disagree on value: one says 5.8, other says 58.0
    // Only 5.8 is valid for atk_ at rarity 5
    let input = SolverInput {
        rarity: 5,
        level_candidates: vec![0],
        substat_candidates: vec![
            vec![OcrCandidate { key: "critRate_".into(), value: v(39), inactive: false }],
            vec![OcrCandidate { key: "critDMG_".into(), value: v(78), inactive: false }],
            vec![
                OcrCandidate { key: "atk_".into(), value: v(580), inactive: false },
                OcrCandidate { key: "atk_".into(), value: v(58), inactive: false },
            ],
        ],
    };
    let result = solve(&input);
    assert!(result.is_some());
    let r = result.unwrap();
    // Should pick the 5.8 candidate
    assert_eq!(r.substats[2].value, v(58));
}

#[test]
fn test_4star_validation() {
    // 4★ level 16 with 3 initial substats: total = 3 + 4 = 7 rolls, 4 active stats
    assert!(validate_substats(4, 16, &[
        ("hp_", v(47)),         // 4.66 → 4.7 (1 roll)
        ("atk", v(160)),        // 15.56 → 16 (1 roll)
        ("def_", v(58)),        // 5.83 → 5.8 (1 roll)
        ("critRate_", v(124)),  // 3.11*4 = 12.44 → 12.4 (4 rolls)
    ]));
}

#[test]
fn test_real_groundtruth_artifacts() {
    // Real artifacts from genshin_export.json groundtruth data
    // 5★ lv20: def=23, atk_=9.3, hp=239, enerRech_=22.0
    assert!(validate_substats(5, 20, &[
        ("def", v(230)),
        ("atk_", v(93)),
        ("hp", v(2390)),
        ("enerRech_", v(220)),
    ]));

    // 5★ lv20: critRate_=17.5, critDMG_=14.0, hp_=5.3, enerRech_=4.5
    assert!(validate_substats(5, 20, &[
        ("critRate_", v(175)),
        ("critDMG_", v(140)),
        ("hp_", v(53)),
        ("enerRech_", v(45)),
    ]));

    // 5★ lv20: critDMG_=7.0, critRate_=9.7, def=21, eleMas=79
    assert!(validate_substats(5, 20, &[
        ("critDMG_", v(70)),
        ("critRate_", v(97)),
        ("def", v(210)),
        ("eleMas", v(790)),
    ]));

    // 5★ lv20: hp=807, hp_=4.7, def=23, enerRech_=20.7
    assert!(validate_substats(5, 20, &[
        ("hp", v(8070)),
        ("hp_", v(47)),
        ("def", v(230)),
        ("enerRech_", v(207)),
    ]));
}

#[test]
fn test_lv0_with_inactive_substat() {
    // 5★ lv0 init=3: 3 active + 1 inactive (待激活)
    // Artifact 0909: atk_=4.7, atk=19, def=16, enerRech_=6.5 (inactive)
    let input = SolverInput {
        rarity: 5,
        level_candidates: vec![0],
        substat_candidates: vec![
            vec![OcrCandidate { key: "atk_".into(), value: v(47), inactive: false }],
            vec![OcrCandidate { key: "atk".into(), value: v(190), inactive: false }],
            vec![OcrCandidate { key: "def".into(), value: v(160), inactive: false }],
            vec![OcrCandidate { key: "enerRech_".into(), value: v(65), inactive: true }],
        ],
    };
    let result = solve(&input);
    assert!(result.is_some(), "solver should find all 4 substats");
    let r = result.unwrap();
    // Should select all 4 substats
    assert_eq!(r.substats.len(), 4, "should have 4 substats (3 active + 1 inactive)");
    // init should be 3 (not 4) because 1 substat is inactive
    assert_eq!(r.initial_substat_count, 3, "init should be 3 for lv0 with 1 inactive");
    // total_rolls should be 3 (inactive doesn't count toward active rolls)
    assert_eq!(r.total_rolls, 3, "total_rolls should exclude inactive at lv0");
    // Verify each has 1 roll
    for s in &r.substats {
        assert_eq!(s.roll_count, 1);
    }
    // Verify one is inactive
    assert_eq!(r.substats.iter().filter(|s| s.inactive).count(), 1);
}

#[test]
fn test_lv0_init4_all_active() {
    // 5★ lv0 init=4: 4 active substats, no inactive
    let input = SolverInput {
        rarity: 5,
        level_candidates: vec![0],
        substat_candidates: vec![
            vec![OcrCandidate { key: "critRate_".into(), value: v(39), inactive: false }],
            vec![OcrCandidate { key: "critDMG_".into(), value: v(78), inactive: false }],
            vec![OcrCandidate { key: "atk_".into(), value: v(58), inactive: false }],
            vec![OcrCandidate { key: "hp_".into(), value: v(58), inactive: false }],
        ],
    };
    let result = solve(&input);
    assert!(result.is_some());
    let r = result.unwrap();
    assert_eq!(r.substats.len(), 4);
    assert_eq!(r.initial_substat_count, 4, "init should be 4 for all-active lv0");
    assert_eq!(r.total_rolls, 4);
}

#[test]
fn test_lv0_inactive_ocr_dropped_line() {
    // 5★ lv0 init=3: OCR dropped 1 active line, only 2 active + 1 inactive
    // The solver should still find a solution with 3 substats
    let input = SolverInput {
        rarity: 5,
        level_candidates: vec![0],
        substat_candidates: vec![
            vec![OcrCandidate { key: "atk_".into(), value: v(47), inactive: false }],
            // atk=19 line dropped (empty)
            vec![OcrCandidate { key: "def".into(), value: v(160), inactive: false }],
            vec![OcrCandidate { key: "enerRech_".into(), value: v(65), inactive: true }],
        ],
    };
    let result = solve(&input);
    assert!(result.is_some(), "should find solution with 3 substats");
    let r = result.unwrap();
    assert_eq!(r.substats.len(), 3);
    // With 2 active + 1 inactive, init = 2
    assert_eq!(r.initial_substat_count, 2);
    assert_eq!(r.total_rolls, 2);
}

#[test]
fn test_level_plus10_fallback_more_substats() {
    // Real case: artifact #0825, 5★ lv11.
    // OCR reads level as 1. At lv1 (total=3), solver picks 3 single-roll
    // substats and drops critDMG_=13.2 (needs 2 rolls).
    // At lv11 (total=5), all 4 substats fit: 1+2+1+1=5.
    // The solver should prefer lv11 because it uses more substats.
    let input = SolverInput {
        rarity: 5,
        level_candidates: vec![1], // OCR misread "11" as "1"
        substat_candidates: vec![
            vec![OcrCandidate { key: "critRate_".into(), value: v(31), inactive: false }], // 1 roll
            vec![OcrCandidate { key: "critDMG_".into(), value: v(132), inactive: false }], // 2 rolls
            vec![OcrCandidate { key: "atk_".into(), value: v(41), inactive: false }],      // 1 roll
            vec![OcrCandidate { key: "def".into(), value: v(230), inactive: false }],      // 1 roll
        ],
    };
    let result = solve(&input);
    assert!(result.is_some(), "should solve");
    let r = result.unwrap();
    assert_eq!(r.level, 11, "should prefer lv11 (4 substats) over lv1 (3 substats)");
    assert_eq!(r.substats.len(), 4);
}

#[test]
fn roll_counts_of_a_shown_value() {
    // 11.7 is two rolls of 5.83, or 4.08 + ... in no other number of rolls
    assert_eq!(valid_roll_counts("hp_", 5, v(117), 8), vec![2]);
    assert_eq!(valid_roll_counts("hp_", 5, v(58), 0), Vec::<i32>::new());
    assert_eq!(valid_roll_counts("nonexistent", 5, v(58), 8), Vec::<i32>::new());
    // hp 1195 = 4 * 298.75, and 5 * 239.00
    assert_eq!(valid_roll_counts("hp", 5, v(11950), 8), vec![4, 5]);
    assert_eq!(valid_roll_counts("hp", 5, v(11950), 4), vec![4]);
}

#[test]
fn initial_value_where_it_can_be_told() {
    assert_eq!(compute_initial_value("critRate_", 5, v(39), 1), Some(v(39)));
    assert_eq!(compute_initial_value("critRate_", 5, v(78), 2), Some(v(39)));
    // 3.11 + 3.89 and 3.50 + 3.50 are both shown as 7.0
    assert_eq!(compute_initial_value("critRate_", 5, v(70), 2), None);
    assert_eq!(compute_initial_value("nonexistent", 5, v(70), 2), None);
}

#[test]
fn first_assignment_is_taken() {
    assert_eq!(find_assignment(&vec![vec![1, 2], vec![1, 3]], 4), Some(vec![1, 3]));
    assert_eq!(find_assignment(&vec![vec![1, 2], vec![1, 2]], 3), Some(vec![1, 2]));
    assert_eq!(find_assignment(&vec![vec![2], vec![2]], 3), None);
    assert_eq!(find_assignment(&vec![], 0), Some(vec![]));
    assert_eq!(find_assignment(&vec![vec![]], 1), None);
}

#[test]
fn last_line_varies_fastest() {
    let c = || OcrCandidate { key: "hp".into(), value: v(1), inactive: false };
    let lines = vec![vec![c()], vec![c(), c()]];
    let mut selection = vec![0, 0];
    let mut seen = vec![selection.clone()];
    while advance_selection(&mut selection, &lines) {
        seen.push(selection.clone());
    }
    assert_eq!(
        seen,
        vec![vec![0, 0], vec![0, 1], vec![0, 2], vec![1, 0], vec![1, 1], vec![1, 2]]
    );
    assert_eq!(selection, vec![0, 0]);
}

#[test]
fn other_rarities_have_no_solution() {
    let input = SolverInput { rarity: 3, level_candidates: vec![0], substat_candidates: vec![] };
    assert!(solve(&input).is_none());
    assert!(!validate_substats(6, 0, &[("critRate_", v(39))]));
    assert!(!validate_substats(5, 0, &[]));
}

#[test]
fn rolls_add_up_in_every_result() {
    let input = SolverInput {
        rarity: 5,
        level_candidates: vec![20, 2],
        substat_candidates: vec![
            vec![OcrCandidate { key: "critRate_".into(), value: v(175), inactive: false }],
            vec![OcrCandidate { key: "critDMG_".into(), value: v(140), inactive: false }],
            vec![OcrCandidate { key: "hp_".into(), value: v(53), inactive: false }],
            vec![OcrCandidate { key: "enerRech_".into(), value: v(45), inactive: false }],
        ],
    };
    let r = solve(&input).unwrap();
    assert_eq!(r.level, 20);
    assert_eq!(r.substats.iter().map(|s| s.roll_count).sum::<i32>(), r.total_rolls);
    assert_eq!(r.initial_substat_count + 5, r.total_rolls);
}

#[test]
fn counts_of_any_size_are_assigned() {
    assert_eq!(find_assignment(&vec![vec![9, 100], vec![50, 7]], 107), Some(vec![100, 7]));
    assert_eq!(find_assignment(&vec![vec![i32::MAX], vec![i32::MAX]], i32::MAX), None);
    assert_eq!(find_assignment(&vec![vec![i32::MAX]], i32::MAX), Some(vec![i32::MAX]));
}

fn reading(key: &str, tenths: i64) -> OcrCandidate {
    OcrCandidate { key: key.to_string(), value: v(tenths), inactive: false }
}

#[test]
fn more_readings_do_not_hinder_a_solution() {
    let lines = || {
        vec![
            vec![reading("critRate_", 105)],
            vec![reading("critDMG_", 210)],
            vec![reading("atk_", 93)],
            vec![reading("enerRech_", 65)],
        ]
    };
    let input = |levels: Vec<i32>, candidates: Vec<Vec<OcrCandidate>>| SolverInput {
        rarity: 5,
        level_candidates: levels,
        substat_candidates: candidates,
    };
    assert!(solve(&input(vec![20], lines())).is_some());
    let mut more = lines();
    more[0].insert(0, reading("critRate_", 9999));
    more.push(vec![reading("hp", 1)]);
    more.swap(1, 3);
    assert!(solve(&input(vec![3, 20], more)).is_some());
    assert!(solve(&input(vec![20], vec![])).is_none());
}

#[test]
fn the_order_of_substats_does_not_matter() {
    let a = [("critRate_", v(105)), ("critDMG_", v(210)), ("atk_", v(93)), ("enerRech_", v(65))];
    let b = [a[2], a[0], a[3], a[1]];
    assert!(validate_substats(5, 20, &a));
    assert!(validate_substats(5, 20, &b));
    assert!(!validate_substats(5, 0, &a));
    assert!(!validate_substats(5, 0, &b));
    assert!(!validate_substats(3, 20, &a));
    assert!(!validate_substats(5, 20, &[]));
}
