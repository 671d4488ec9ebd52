use screensnipe::action::{Action, ConfigError};
use screensnipe::config::{parse_config, Config};
use screensnipe::keymap::KeymapTable;

#[test]
fn action_names_parse_to_their_tags() {
    assert_eq!(
        Action::from_str("capture_region").unwrap(),
        Action::CaptureRegion
    );
    assert_eq!(
        Action::from_str("capture_fullscreen").unwrap(),
        Action::CaptureFullscreen
    );
    assert_eq!(Action::from_str("ocr").unwrap(), Action::Ocr);
}

#[test]
fn action_parse_trims_and_ignores_ascii_case() {
    assert_eq!(Action::from_str("  OCR \t").unwrap(), Action::Ocr);
    assert_eq!(
        Action::from_str("Capture_Fullscreen").unwrap(),
        Action::CaptureFullscreen
    );
}

#[test]
fn unknown_action_name_is_a_config_error() {
    match Action::from_str(" grab ") {
        Err(ConfigError::UnknownAction(s)) => assert_eq!(s, " grab "),
        other => panic!("expected an unknown-action error, got {:?}", other),
    }
}

#[test]
fn config_text_populates_save_dir_and_keymap() {
    let text = "save_dir = /tmp/caps\ncmd+ctrl+5=ocr\n\n   \ncmd+9 = capture_region";
    let cfg = parse_config(text, "/default".to_owned()).unwrap();
    assert_eq!(cfg.save_dir.as_str(), "/tmp/caps");
    assert_eq!(cfg.keymaps.lookup("cmd+ctrl+5"), Some(Action::Ocr));
    assert_eq!(cfg.keymaps.lookup("cmd+9"), Some(Action::CaptureRegion));
    assert_eq!(cfg.keymaps.lookup("cmd+ctrl+9"), None);
}

#[test]
fn config_without_save_dir_keeps_the_default() {
    let cfg = parse_config("a+b=ocr", "/default".to_owned()).unwrap();
    assert_eq!(cfg.save_dir.as_str(), "/default");
    assert_eq!(cfg.keymaps.lookup("a+b"), Some(Action::Ocr));
}

#[test]
fn empty_config_text_is_a_valid_empty_config() {
    let cfg = parse_config("", "/default".to_owned()).unwrap();
    assert_eq!(cfg.save_dir.as_str(), "/default");
    assert_eq!(cfg.keymaps.lookup("cmd+ctrl+9"), None);
}

#[test]
fn line_without_separator_is_rejected() {
    match parse_config("cmd+ctrl+9\n", "/d".to_owned()) {
        Err(ConfigError::InvalidLine(l)) => assert_eq!(l, "cmd+ctrl+9"),
        other => panic!("expected an invalid-line error, got {:?}", other.err()),
    }
}

#[test]
fn unknown_action_in_config_is_rejected_with_the_value() {
    match parse_config("cmd+1=grab", "/d".to_owned()) {
        Err(ConfigError::UnknownAction(v)) => assert_eq!(v, "grab"),
        other => panic!("expected an unknown-action error, got {:?}", other.err()),
    }
}

#[test]
fn value_stops_at_the_second_separator() {
    match parse_config("cmd+1=b=c", "/d".to_owned()) {
        Err(ConfigError::UnknownAction(v)) => assert_eq!(v, "b"),
        other => panic!("expected an unknown-action error, got {:?}", other.err()),
    }
}

#[test]
fn later_config_line_overwrites_earlier_binding() {
    let cfg = parse_config(
        "cmd+ctrl+9=capture_region\ncmd+ctrl+9=ocr",
        "/d".to_owned(),
    )
    .unwrap();
    assert_eq!(cfg.keymaps.lookup("cmd+ctrl+9"), Some(Action::Ocr));
}

#[test]
fn stock_config_has_the_three_default_bindings() {
    let cfg = Config::with_save_dir("/pics".to_owned());
    assert_eq!(cfg.save_dir.as_str(), "/pics");
    assert_eq!(cfg.keymaps.lookup("cmd+ctrl+9"), Some(Action::CaptureRegion));
    assert_eq!(cfg.keymaps.lookup("cmd+ctrl+8"), Some(Action::Ocr));
    assert_eq!(
        cfg.keymaps.lookup("cmd+ctrl+0"),
        Some(Action::CaptureFullscreen)
    );
    assert_eq!(cfg.keymaps.lookup("cmd+ctrl+1"), None);
}

#[test]
fn config_new_packs_its_parts() {
    let mut km = KeymapTable::new();
    km.insert("x+y".to_owned(), Action::Ocr);
    let cfg = Config::new("/somewhere".to_owned(), km);
    assert_eq!(cfg.save_dir.as_str(), "/somewhere");
    assert_eq!(cfg.keymaps.lookup("x+y"), Some(Action::Ocr));
}

#[test]
fn default_config_carries_the_stock_bindings_when_resolvable() {
    if let Some(cfg) = Config::default() {
        assert_eq!(cfg.keymaps.lookup("cmd+ctrl+9"), Some(Action::CaptureRegion));
        assert_eq!(cfg.keymaps.lookup("cmd+ctrl+8"), Some(Action::Ocr));
        assert_eq!(
            cfg.keymaps.lookup("cmd+ctrl+0"),
            Some(Action::CaptureFullscreen)
        );
    }
}
