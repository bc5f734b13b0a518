use keyboard_converter::Config;
use keyboard_converter::ValidationError;

#[test]
fn check_accepts_distinct_combos() {
    let cfg = Config::from_str("LP a\nLR b\nLP LR c\n").unwrap();
    assert!(cfg.check().is_ok());
}

#[test]
fn check_rejects_permuted_duplicate_finger_set() {
    let cfg = Config::from_str("LP LR a\nLR LP b\n").unwrap();
    match cfg.check() {
        Err(e) => {
            assert_eq!(e.message(), "Duplicate combo: LR LP b");
            match e {
                ValidationError::DuplicateCombo(c) => assert_eq!(c.render(), "LR LP b"),
                _ => panic!("expected a duplicate-combo error"),
            }
        },
        Ok(()) => panic!("expected a duplicate-combo error"),
    }
}

#[test]
fn check_rejects_identical_duplicate() {
    let cfg = Config::from_str("LP a\nLP b\n").unwrap();
    match cfg.check() {
        Err(ValidationError::DuplicateCombo(c)) => {
            assert_eq!(c.render(), "LP b");
        },
        _ => panic!("expected a duplicate-combo error"),
    }
}

#[test]
fn check_rejects_duplicate_finger_within_combo() {
    let cfg = Config::from_str("LP LP a\nLR b\n").unwrap();
    match cfg.check() {
        Err(ValidationError::DuplicateFingerInCombo(c)) => {
            assert_eq!(c.render(), "LP LP a");
        },
        _ => panic!("expected a duplicate-finger error"),
    }
}

#[test]
fn check_duplicate_combo_reported_before_duplicate_finger() {
    // the duplicate-combo check runs first
    let cfg = Config::from_str("LR LR x\nLP a\nLP b\n").unwrap();
    match cfg.check() {
        Err(ValidationError::DuplicateCombo(c)) => {
            assert_eq!(c.render(), "LP b");
        },
        _ => panic!("expected a duplicate-combo error"),
    }
}

#[test]
fn check_is_idempotent() {
    let good = Config::from_str("LP a\nLR b\n").unwrap();
    assert_eq!(good.check().is_ok(), good.check().is_ok());
    let bad = Config::from_str("LP LR a\nLR LP b\n").unwrap();
    let first = bad.check();
    let second = bad.check();
    match (first, second) {
        (
            Err(ValidationError::DuplicateCombo(c1)),
            Err(ValidationError::DuplicateCombo(c2)),
        ) => {
            assert_eq!(c1.render(), c2.render());
        },
        _ => panic!("expected the same duplicate-combo error twice"),
    }
}

#[test]
fn check_all_single_requires_full_coverage() {
    let cfg = Config::from_str("LP a\nLR b\n").unwrap();
    assert!(cfg.check().is_ok());
    assert!(cfg.check_all_single().is_err());
}
