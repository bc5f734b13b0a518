use keyboard_converter::Config;
use keyboard_converter::Finger;
use keyboard_converter::ParseError;

fn fingers_of(c: &keyboard_converter::Combo) -> Vec<Finger> {
    c.fingers().clone()
}

#[test]
fn parse_comment_and_blank_lines() {
    let cfg = Config::from_str("# comment\n\nLP a\n").unwrap();
    assert_eq!(cfg.combos().len(), 1);
    let combo = &cfg.combos()[0];
    assert_eq!(fingers_of(combo), vec![Finger::LP]);
    assert_eq!(combo.key().as_str(), "a");
}

#[test]
fn parse_missing_key_line_number() {
    let err = Config::from_str("LP\n").unwrap_err();
    assert_eq!(err, ParseError::MissingKey(1));
    assert_eq!(err.message(), "Missing Key: line 1");
}

#[test]
fn parse_no_fingers_line_number() {
    let err = Config::from_str("LP a\nquux b\n").unwrap_err();
    assert_eq!(err, ParseError::NoFingers(2));
    assert_eq!(err.message(), "Invalid finger on line 2");
}

#[test]
fn parse_line_numbers_count_skipped_lines() {
    let err = Config::from_str("# header\n\nLP LR\n").unwrap_err();
    assert_eq!(err, ParseError::MissingKey(3));
}

#[test]
fn parse_case_insensitive_fingers() {
    let cfg = Config::from_str("lp rR x\n").unwrap();
    assert_eq!(cfg.combos().len(), 1);
    assert_eq!(fingers_of(&cfg.combos()[0]), vec![Finger::LP, Finger::RR]);
    assert_eq!(cfg.combos()[0].key().as_str(), "x");
}

#[test]
fn parse_discards_words_after_key() {
    let cfg = Config::from_str("LP LR key extra words\n").unwrap();
    assert_eq!(cfg.combos().len(), 1);
    assert_eq!(cfg.combos()[0].key().as_str(), "key");
}

#[test]
fn parse_keeps_source_order() {
    let cfg = Config::from_str("LP a\nLR b\nLP LR c\n").unwrap();
    assert_eq!(cfg.combos().len(), 3);
    assert_eq!(cfg.combos()[0].key().as_str(), "a");
    assert_eq!(cfg.combos()[1].key().as_str(), "b");
    assert_eq!(cfg.combos()[2].key().as_str(), "c");
}

#[test]
fn parse_first_error_wins() {
    let err = Config::from_str("LP\nquux a\n").unwrap_err();
    assert_eq!(err, ParseError::MissingKey(1));
}

#[test]
fn render_round_trips() {
    let text = "# comment\nLP a\nlr  b\nLP LR c\n";
    let cfg = Config::from_str(text).unwrap();
    let rendered = cfg.render();
    assert_eq!(rendered, "LP a\nLR b\nLP LR c");
    let again = Config::from_str(&rendered).unwrap();
    assert_eq!(again.combos().len(), cfg.combos().len());
    for (a, b) in again.combos().iter().zip(cfg.combos().iter()) {
        assert_eq!(fingers_of(a), fingers_of(b));
        assert_eq!(a.key(), b.key());
    }
}

#[test]
fn render_single_combo_has_no_newline() {
    let cfg = Config::from_str("RP z\n").unwrap();
    assert_eq!(cfg.render(), "RP z");
}

#[test]
fn combo_render_is_one_line() {
    let cfg = Config::from_str("LP LR q\n").unwrap();
    assert_eq!(cfg.combos()[0].render(), "LP LR q");
}

#[test]
fn parse_empty_text() {
    let cfg = Config::from_str("").unwrap();
    assert_eq!(cfg.combos().len(), 0);
    assert_eq!(cfg.render(), "");
    assert!(cfg.check().is_ok());
}

#[test]
fn empty_config_generators() {
    let cfg = Config::from_str("# nothing but comments\n").unwrap();
    assert_eq!(cfg.to_keychordz().unwrap(), "");
    assert!(cfg.to_keymap().is_err());
    assert!(cfg.to_qmk_combos().is_err());
    let slots = cfg.resolve(&Vec::new());
    assert_eq!(slots, vec![""; 15]);
}

#[test]
fn parse_line_of_spaces_is_blank() {
    let cfg = Config::from_str("   \nLP a\n").unwrap();
    assert_eq!(cfg.combos().len(), 1);
}

#[test]
fn parse_indented_comment_is_skipped() {
    let cfg = Config::from_str("  # note\nLP a\n").unwrap();
    assert_eq!(cfg.combos().len(), 1);
}
