use voca::inject::{
    clipboard_fallback, inject, typing_command, unicode_key_events, utf16_units, InjectionResult,
    KeyEvent,
};

#[test]
fn empty_text_needs_nothing() {
    let r = inject("", |_t: &str| panic!("no typing"), |_t: &str| panic!("no clipboard"));
    assert!(matches!(r, InjectionResult::Injected));
}

#[test]
fn native_success_is_injected() {
    let r = inject("hi", |t: &str| { assert_eq!(t, "hi"); Ok(()) }, |_t: &str| panic!("no clipboard"));
    assert!(matches!(r, InjectionResult::Injected));
}

#[test]
fn native_failure_falls_back_to_clipboard() {
    let r = inject("hi", |_t: &str| Err("blocked".to_string()), |t: &str| {
        assert_eq!(t, "hi");
        Ok(())
    });
    assert!(matches!(r, InjectionResult::Clipboard));
}

#[test]
fn both_failing_reports_the_clipboard_error() {
    let r = inject("hi", |_t: &str| Err("blocked".to_string()), |_t: &str| {
        Err("no clipboard".to_string())
    });
    match r {
        InjectionResult::Failed(e) => assert_eq!(e, "no clipboard"),
        other => panic!("unexpected {other:?}"),
    }
}

#[test]
fn clipboard_fallback_outcomes() {
    assert!(matches!(clipboard_fallback("x", |_t: &str| Ok(())), InjectionResult::Clipboard));
    assert!(matches!(
        clipboard_fallback("x", |_t: &str| Err("e".to_string())),
        InjectionResult::Failed(_)
    ));
}

#[test]
fn wayland_uses_ydotool() {
    let c = typing_command("-hi", true, true).unwrap();
    assert_eq!(c.program, "ydotool");
    assert_eq!(c.args, vec!["type", "--delay", "0", "--", "-hi"]);
}

#[test]
fn x11_uses_xdotool() {
    let c = typing_command("hi", false, true).unwrap();
    assert_eq!(c.program, "xdotool");
    assert_eq!(c.args, vec!["type", "--clearmodifiers", "--delay", "0", "--", "hi"]);
}

#[test]
fn no_session_is_an_error() {
    let e = typing_command("hi", false, false).err().unwrap();
    assert_eq!(e, "No X11 (DISPLAY) or Wayland (WAYLAND_DISPLAY) session detected");
}

#[test]
fn utf16_matches_std() {
    for s in ["", "abc", "é", "日本", "a😀b", "\u{10FFFF}"] {
        let expected: Vec<u16> = s.encode_utf16().collect();
        assert_eq!(utf16_units(s), expected);
    }
    assert_eq!(utf16_units("😀"), vec![0xD83D, 0xDE00]);
}

#[test]
fn key_events_press_then_release() {
    let ev = unicode_key_events(&[0x41, 0xD83D]);
    assert_eq!(
        ev,
        vec![
            KeyEvent { unit: 0x41, key_up: false },
            KeyEvent { unit: 0x41, key_up: true },
            KeyEvent { unit: 0xD83D, key_up: false },
            KeyEvent { unit: 0xD83D, key_up: true },
        ]
    );
}

#[test]
fn send_input_all_delivered() {
    assert!(voca::inject::send_input_result(4, 4).is_ok());
    assert!(voca::inject::send_input_result(0, 0).is_ok());
}

#[test]
fn send_input_blocked_message() {
    assert_eq!(
        voca::inject::send_input_result(3, 10).err().unwrap(),
        "SendInput: 3/10 events delivered — OS blocked some inputs"
    );
    assert_eq!(
        voca::inject::send_input_result(0, 1234567).err().unwrap(),
        "SendInput: 0/1234567 events delivered — OS blocked some inputs"
    );
}
