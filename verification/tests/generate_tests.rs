use keyboard_converter::Config;
use keyboard_converter::Finger;
use keyboard_converter::Key;
use keyboard_converter::LookupError;
use keyboard_converter::keys::key_of_word;

const FULL_SINGLES: &str = "LP A\nLR B\nLM C\nLI D\nLU E\nLD F\nLL G\nRP H\nRR I\nRM J\nRI K\nRU L\nRD M\nRL N\n";

#[test]
fn single_finger_table_in_ordinal_order() {
    let cfg = Config::from_str(FULL_SINGLES).unwrap();
    let table = cfg.single_finger_table().unwrap();
    let expected = vec![
        "A", "B", "C", "D", "E", "F", "G", "H", "I", "J", "K", "L", "M", "N",
    ];
    assert_eq!(table, expected);
}

#[test]
fn single_finger_table_unmapped_finger() {
    // every finger but RL
    let text = "LP A\nLR B\nLM C\nLI D\nLU E\nLD F\nLL G\nRP H\nRR I\nRM J\nRI K\nRU L\nRD M\n";
    let cfg = Config::from_str(text).unwrap();
    match cfg.single_finger_table() {
        Err(e) => {
            assert_eq!(e.message(), "Finger RL is not mapped");
            match e {
                LookupError::Unmapped(f) => assert_eq!(f, Finger::RL),
                _ => panic!("expected an unmapped-finger error"),
            }
        },
        Ok(_) => panic!("expected an unmapped-finger error"),
    }
}

#[test]
fn single_finger_table_already_mapped() {
    let cfg = Config::from_str("LP A\nLP B\n").unwrap();
    match cfg.single_finger_table() {
        Err(e) => {
            assert_eq!(e.message(), "Finger LP is already mapped to A");
            match e {
                LookupError::AlreadyMapped(f, key) => {
                    assert_eq!(f, Finger::LP);
                    assert_eq!(key, "A");
                },
                _ => panic!("expected an already-mapped error"),
            }
        },
        Ok(_) => panic!("expected an already-mapped error"),
    }
}

#[test]
fn keymap_renders_fixed_layout() {
    let cfg = Config::from_str(FULL_SINGLES).unwrap();
    let out = cfg.to_keymap().unwrap();
    let mut expected = String::new();
    expected.push_str("[0] = LAYOUT_keychordz(\n");
    expected.push_str("   ");
    expected.push_str("    A,");
    expected.push_str("    B,");
    expected.push_str("    C,");
    expected.push_str("    D,                  ");
    expected.push_str("    E,");
    expected.push_str("    F,");
    expected.push_str("    G,");
    expected.push_str("    H, \\\n                            ");
    expected.push_str(" I,");
    expected.push_str(" J,");
    expected.push_str(" K,           ");
    expected.push_str(" L,");
    expected.push_str(" M,");
    expected.push_str(" N");
    expected.push_str(" \\\n       )");
    assert_eq!(out, expected);
}

#[test]
fn keymap_propagates_missing_mapping() {
    let text = "LP A\nLR B\nLM C\nLI D\nLU E\nLD F\nLL G\nRP H\nRR I\nRM J\nRI K\nRU L\nRD M\n";
    let cfg = Config::from_str(text).unwrap();
    match cfg.to_keymap() {
        Err(LookupError::Unmapped(f)) => assert_eq!(f, Finger::RL),
        _ => panic!("expected the unmapped-finger error to propagate"),
    }
}

#[test]
fn qmk_combos_full_output() {
    let text = format!("{}LP LR X\nLM LI Y\n", FULL_SINGLES);
    let cfg = Config::from_str(&text).unwrap();
    let out = cfg.to_qmk_combos().unwrap();
    let mut expected = String::new();
    expected.push_str("const uint16_t PROGMEM combo_14[] = { A, B, COMBO_END};\n");
    expected.push_str("const uint16_t PROGMEM combo_15[] = { C, D, COMBO_END};\n");
    expected.push_str("\n\n");
    expected.push_str("combo_t key_combos[COMBO_COUNT] = {\n");
    expected.push_str("    COMBO(combo_14, X),\n");
    expected.push_str("    COMBO(combo_15, Y),\n");
    expected.push_str("};\n");
    expected.push_str("\n\nComboCount = 2");
    assert_eq!(out, expected);
}

#[test]
fn qmk_combo_count_subtracts_the_single_finger_baseline() {
    let text = format!("{}LP LR X\nLM LI Y\n", FULL_SINGLES);
    let cfg = Config::from_str(&text).unwrap();
    let out = cfg.to_qmk_combos().unwrap();
    assert!(out.ends_with("ComboCount = 2"));
    let bare = Config::from_str(FULL_SINGLES).unwrap();
    let out2 = bare.to_qmk_combos().unwrap();
    assert!(out2.ends_with("ComboCount = 0"));
}

#[test]
fn qmk_combos_propagate_missing_mapping() {
    let cfg = Config::from_str("LP LR X\n").unwrap();
    assert!(cfg.to_qmk_combos().is_err());
}

#[test]
fn keychordz_sorts_by_descending_finger_count() {
    let cfg = Config::from_str("LP A\nLP LR B\n").unwrap();
    let out = cfg.to_keychordz().unwrap();
    let mut expected = String::new();
    expected.push_str("Chord::new(Finger::LP as u16 | Finger::LR as u16, Key::B),\n");
    expected.push_str("Chord::new(Finger::LP as u16, Key::A),\n");
    assert_eq!(out, expected);
}

#[test]
fn keychordz_keeps_input_order_on_ties() {
    let cfg = Config::from_str("LP A\nLR B\n").unwrap();
    let out = cfg.to_keychordz().unwrap();
    let mut expected = String::new();
    expected.push_str("Chord::new(Finger::LP as u16, Key::A),\n");
    expected.push_str("Chord::new(Finger::LR as u16, Key::B),\n");
    assert_eq!(out, expected);
}

#[test]
fn keychordz_skips_keys_outside_the_vocabulary() {
    let cfg = Config::from_str("LM quux\nLP A\n").unwrap();
    let out = cfg.to_keychordz().unwrap();
    assert_eq!(out, "Chord::new(Finger::LP as u16, Key::A),\n");
}

#[test]
fn key_vocabulary_is_exact_single_letters() {
    assert_eq!(key_of_word(&vec!['A']), Some(Key::A));
    assert_eq!(key_of_word(&vec!['Z']), Some(Key::Z));
    assert_eq!(key_of_word(&vec!['a']), None);
    assert_eq!(key_of_word(&vec!['A', 'B']), None);
    assert_eq!(Key::Q.name(), "Q");
}
