use screensnipe::action::Action;
use screensnipe::combo::combo_string;
use screensnipe::config::Config;
use screensnipe::dispatch::{handle, replay, Decision, InputEvent};
use screensnipe::keymap::KeymapTable;
use screensnipe::keys::{Key, KeyState};
use screensnipe::paths::{capture_path_now, get_timestamp, timestamped_png_path, u64_to_decimal};

#[test]
fn press_release_tracks_membership() {
    let mut s = KeyState::new();
    s.press(Key::Num1);
    s.press(Key::ShiftLeft);
    assert!(s.is_held(Key::Num1));
    assert!(s.is_held(Key::ShiftLeft));
    assert!(!s.is_held(Key::Num2));
    s.release(Key::Num1);
    assert!(!s.is_held(Key::Num1));
    assert!(s.is_held(Key::ShiftLeft));
}

#[test]
fn press_is_idempotent() {
    let mut s = KeyState::new();
    s.press(Key::Num5);
    s.press(Key::Num5);
    assert!(s.is_held(Key::Num5));
    assert_eq!(s.snapshot().len(), 1);
    s.release(Key::Num5);
    assert!(!s.is_held(Key::Num5));
}

#[test]
fn release_of_unheld_key_is_noop() {
    let mut s = KeyState::new();
    s.press(Key::MetaLeft);
    s.release(Key::Num9);
    assert!(s.is_held(Key::MetaLeft));
    assert_eq!(s.snapshot().len(), 1);
    let mut empty = KeyState::new();
    empty.release(Key::Num0);
    assert_eq!(empty.snapshot().len(), 0);
}

#[test]
fn clear_empties_the_state() {
    let mut s = KeyState::new();
    s.press(Key::MetaLeft);
    s.press(Key::Num9);
    s.clear();
    assert!(!s.is_held(Key::MetaLeft));
    assert!(!s.is_held(Key::Num9));
    assert_eq!(s.snapshot().len(), 0);
}

#[test]
fn replay_leaves_pressed_but_not_released() {
    let events = vec![
        InputEvent::KeyPress(Key::MetaLeft),
        InputEvent::KeyPress(Key::Num3),
        InputEvent::Other,
        InputEvent::KeyRelease(Key::MetaLeft),
        InputEvent::KeyPress(Key::ControlLeft),
        InputEvent::KeyRelease(Key::Num9),
    ];
    let s = replay(&events);
    assert!(!s.is_held(Key::MetaLeft));
    assert!(s.is_held(Key::Num3));
    assert!(s.is_held(Key::ControlLeft));
    assert!(!s.is_held(Key::Num9));
}

#[test]
fn replay_membership_is_order_independent() {
    let a = vec![
        InputEvent::KeyPress(Key::Num1),
        InputEvent::KeyPress(Key::Num2),
        InputEvent::KeyRelease(Key::Num1),
    ];
    let b = vec![
        InputEvent::KeyPress(Key::Num2),
        InputEvent::KeyPress(Key::Num1),
        InputEvent::KeyRelease(Key::Num1),
    ];
    let sa = replay(&a);
    let sb = replay(&b);
    for k in [Key::Num1, Key::Num2, Key::Num3] {
        assert_eq!(sa.is_held(k), sb.is_held(k));
    }
}

#[test]
fn combo_is_order_independent() {
    let orders: [[Key; 3]; 6] = [
        [Key::ControlLeft, Key::MetaLeft, Key::Num9],
        [Key::ControlLeft, Key::Num9, Key::MetaLeft],
        [Key::MetaLeft, Key::ControlLeft, Key::Num9],
        [Key::MetaLeft, Key::Num9, Key::ControlLeft],
        [Key::Num9, Key::ControlLeft, Key::MetaLeft],
        [Key::Num9, Key::MetaLeft, Key::ControlLeft],
    ];
    let mut rendered: Vec<String> = Vec::new();
    for order in orders {
        let mut s = KeyState::new();
        for k in order {
            s.press(k);
        }
        rendered.push(combo_string(&s));
    }
    for c in &rendered {
        assert_eq!(c, &rendered[0]);
    }
}

#[test]
fn combo_of_ctrl_meta_nine_is_the_expected_literal() {
    let mut s = KeyState::new();
    s.press(Key::ControlLeft);
    s.press(Key::MetaLeft);
    s.press(Key::Num9);
    assert_eq!(combo_string(&s).as_str(), "cmd+ctrl+9");
}

#[test]
fn combo_uses_fixed_modifier_order_and_ascending_digits() {
    let mut s = KeyState::new();
    s.press(Key::Num2);
    s.press(Key::AltGr);
    s.press(Key::Num0);
    s.press(Key::ShiftRight);
    assert_eq!(combo_string(&s).as_str(), "shift+alt+0+2");
}

#[test]
fn combo_right_variants_render_like_left() {
    let mut s = KeyState::new();
    s.press(Key::MetaRight);
    s.press(Key::ControlRight);
    s.press(Key::Num9);
    assert_eq!(combo_string(&s).as_str(), "cmd+ctrl+9");
}

#[test]
fn combo_of_empty_or_unmodeled_keys_is_empty() {
    let s = KeyState::new();
    assert_eq!(combo_string(&s).as_str(), "");
    let mut t = KeyState::new();
    t.press(Key::Other(42));
    assert_eq!(combo_string(&t).as_str(), "");
}

#[test]
fn lookup_of_never_inserted_identifier_misses() {
    let mut t = KeymapTable::new();
    t.insert("cmd+ctrl+9".to_owned(), Action::CaptureRegion);
    assert_eq!(t.lookup("cmd+ctrl+8"), None);
    assert_eq!(t.lookup(""), None);
    let empty = KeymapTable::new();
    assert_eq!(empty.lookup("cmd+ctrl+9"), None);
}

#[test]
fn duplicate_insert_overwrites() {
    let mut t = KeymapTable::new();
    t.insert("cmd+ctrl+9".to_owned(), Action::CaptureRegion);
    t.insert("cmd+ctrl+9".to_owned(), Action::Ocr);
    assert_eq!(t.lookup("cmd+ctrl+9"), Some(Action::Ocr));
}

#[test]
fn matched_press_is_suppressed_and_clears_state() {
    let cfg = Config::with_save_dir("/tmp".to_owned());
    let mut s = KeyState::new();
    let r1 = handle(InputEvent::KeyPress(Key::MetaLeft), &mut s, &cfg.keymaps);
    assert_eq!(r1, (Decision::PassThrough, None));
    let r2 = handle(InputEvent::KeyPress(Key::ControlLeft), &mut s, &cfg.keymaps);
    assert_eq!(r2, (Decision::PassThrough, None));
    let r3 = handle(InputEvent::KeyPress(Key::Num9), &mut s, &cfg.keymaps);
    assert_eq!(r3, (Decision::Suppress, Some(Action::CaptureRegion)));
    assert!(!s.is_held(Key::MetaLeft));
    assert!(!s.is_held(Key::ControlLeft));
    assert!(!s.is_held(Key::Num9));
}

#[test]
fn unmatched_press_passes_through() {
    let cfg = Config::with_save_dir("/tmp".to_owned());
    let mut s = KeyState::new();
    let r = handle(InputEvent::KeyPress(Key::Num7), &mut s, &cfg.keymaps);
    assert_eq!(r, (Decision::PassThrough, None));
    assert!(s.is_held(Key::Num7));
}

#[test]
fn releases_and_other_events_always_pass_through() {
    let cfg = Config::with_save_dir("/tmp".to_owned());
    let mut s = KeyState::new();
    handle(InputEvent::KeyPress(Key::MetaLeft), &mut s, &cfg.keymaps);
    let r1 = handle(InputEvent::KeyRelease(Key::MetaLeft), &mut s, &cfg.keymaps);
    assert_eq!(r1, (Decision::PassThrough, None));
    assert!(!s.is_held(Key::MetaLeft));
    let r2 = handle(InputEvent::Other, &mut s, &cfg.keymaps);
    assert_eq!(r2, (Decision::PassThrough, None));
}

#[test]
fn end_to_end_default_keymap_scenario() {
    let cfg = Config::with_save_dir("/home/u/Pictures".to_owned());
    assert_eq!(cfg.save_dir.as_str(), "/home/u/Pictures");
    let mut s = KeyState::new();
    let r1 = handle(InputEvent::KeyPress(Key::MetaLeft), &mut s, &cfg.keymaps);
    let r2 = handle(InputEvent::KeyPress(Key::ControlLeft), &mut s, &cfg.keymaps);
    assert_eq!(r1.0, Decision::PassThrough);
    assert_eq!(r2.0, Decision::PassThrough);
    let r3 = handle(InputEvent::KeyPress(Key::Num9), &mut s, &cfg.keymaps);
    assert_eq!(r3, (Decision::Suppress, Some(Action::CaptureRegion)));
    // the host would now run CaptureRegion against cfg.save_dir
    let path = capture_path_now(cfg.save_dir.as_str(), "screenshot_test");
    assert!(path.starts_with("/home/u/Pictures/screenshot_test_"));
    assert!(path.ends_with(".png"));
    // the release that follows still propagates normally
    let r4 = handle(InputEvent::KeyRelease(Key::Num9), &mut s, &cfg.keymaps);
    assert_eq!(r4, (Decision::PassThrough, None));
}

#[test]
fn decimal_rendering_is_exact() {
    assert_eq!(u64_to_decimal(0).as_str(), "0");
    assert_eq!(u64_to_decimal(7).as_str(), "7");
    assert_eq!(u64_to_decimal(10).as_str(), "10");
    assert_eq!(u64_to_decimal(1700000000).as_str(), "1700000000");
    assert_eq!(u64_to_decimal(u64::MAX).as_str(), "18446744073709551615");
}

#[test]
fn capture_paths_are_named_deterministically_by_timestamp() {
    assert_eq!(
        timestamped_png_path("/tmp", "screenshot_ocr", 12345).as_str(),
        "/tmp/screenshot_ocr_12345.png"
    );
    let ts = get_timestamp();
    assert!(ts > 0);
    let p = capture_path_now("/x", "shot");
    assert!(p.starts_with("/x/shot_"));
    assert!(p.ends_with(".png"));
}
