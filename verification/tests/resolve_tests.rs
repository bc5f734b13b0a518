use keyboard_converter::Config;
use keyboard_converter::FINGER_COUNT;
use keyboard_converter::Finger;

#[test]
fn finger_ordinals_are_dense() {
    assert_eq!(FINGER_COUNT, 14);
    assert_eq!(Finger::LP.ordinal(), 0);
    assert_eq!(Finger::LR.ordinal(), 1);
    assert_eq!(Finger::RL.ordinal(), 13);
}

#[test]
fn finger_bit_flags_are_single_bits() {
    assert_eq!(Finger::LP.bit_flag(), 0b0100_0000_0000_0000);
    assert_eq!(Finger::LL.bit_flag(), 0b0000_0001_0000_0000);
    assert_eq!(Finger::RP.bit_flag(), 0b0000_0000_0100_0000);
    assert_eq!(Finger::RL.bit_flag(), 0b0000_0000_0000_0001);
    let fingers = [
        Finger::LP,
        Finger::LR,
        Finger::LM,
        Finger::LI,
        Finger::LU,
        Finger::LD,
        Finger::LL,
        Finger::RP,
        Finger::RR,
        Finger::RM,
        Finger::RI,
        Finger::RU,
        Finger::RD,
        Finger::RL,
    ];
    for f in fingers.iter() {
        assert_eq!(f.bit_flag().count_ones(), 1);
        assert_eq!(Finger::of_ordinal(f.ordinal()), *f);
    }
}

#[test]
fn resolve_empty_pressed_set() {
    let cfg = Config::from_str("LP x\nLR y\nLP LR z\n").unwrap();
    let slots = cfg.resolve(&Vec::new());
    assert_eq!(slots.len(), 15);
    assert_eq!(slots[Finger::LP.ordinal()], "x");
    assert_eq!(slots[Finger::LR.ordinal()], "y");
    // the chord-complete slot stays unset
    assert_eq!(slots[14], "");
    // no other finger leads anywhere
    assert_eq!(slots[Finger::RM.ordinal()], "");
}

#[test]
fn resolve_partial_chord() {
    let cfg = Config::from_str("LP x\nLR y\nLP LR z\n").unwrap();
    let slots = cfg.resolve(&vec![Finger::LP]);
    // the pressed set already completes the single-finger combo
    assert_eq!(slots[14], "x");
    // pressing LR next would complete the two-finger combo
    assert_eq!(slots[Finger::LR.ordinal()], "z");
    assert_eq!(slots[Finger::LP.ordinal()], "");
}

#[test]
fn resolve_later_combo_overwrites_earlier_slot() {
    let cfg = Config::from_str("LP first\nLP second\n").unwrap();
    let slots = cfg.resolve(&Vec::new());
    assert_eq!(slots[Finger::LP.ordinal()], "second");
}

#[test]
fn resolve_ignores_chords_more_than_one_press_away() {
    let cfg = Config::from_str("LP LR LM deep\n").unwrap();
    let slots = cfg.resolve(&Vec::new());
    for s in slots.iter() {
        assert_eq!(s, "");
    }
    let slots2 = cfg.resolve(&vec![Finger::LP, Finger::LR]);
    assert_eq!(slots2[Finger::LM.ordinal()], "deep");
}

#[test]
fn get_key_with_fingers_parses_names() {
    let cfg = Config::from_str("LP x\nLR y\nLP LR z\n").unwrap();
    let slots = cfg.get_key_with_fingers(&vec!["lp".to_string()]);
    assert_eq!(slots[14], "x");
    assert_eq!(slots[Finger::LR.ordinal()], "z");
}

#[test]
fn get_key_with_fingers_coerces_unknown_names() {
    let cfg = Config::from_str("LP x\nLR y\nLP LR z\n").unwrap();
    // an unknown finger name is treated as the default finger, LP
    let known = cfg.get_key_with_fingers(&vec!["LP".to_string()]);
    let coerced = cfg.get_key_with_fingers(&vec!["quux".to_string()]);
    assert_eq!(known, coerced);
}
