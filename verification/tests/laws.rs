use keytokey::output::{hex_digit_to_keycode, hex_digit_to_keycode_dvorak};
use keytokey::premade::DVORAK_MAP;
use keytokey::handlers::{OnOff, ProcessKeys, RewriteLayer, StickyMacro, USBKeyboard, UnicodeKeyboard};
use keytokey::test_helpers::PressCounter;
use keytokey::{
    Event, EventStatus, KeyCode, KeyCodeInfo, KeyOutCatcher, KeyboardState, Keyboard, Modifier,
    UnicodeSendMode, UserKey,
};
use keytokey::KeyCode::{A, B, C, D, E, F, G, H};
use std::cell::RefCell;
use std::rc::Rc;

fn check_output(keyboard: &Keyboard, should: &[&[KeyCode]]) {
    let reports = &keyboard.output.reports;
    assert_eq!(should.len(), reports.len(), "reports: {:?}", reports);
    for (ii, report) in should.iter().enumerate() {
        assert_eq!(reports[ii].len(), report.len(), "reports: {:?}", reports);
        for k in report.iter() {
            assert!(reports[ii].contains(&k.to_u8()), "reports: {:?}", reports);
        }
    }
}

#[test]
fn test_usb_code_roundtrip() {
    for k in [KeyCode::No, KeyCode::A, KeyCode::Z, KeyCode::Kp0, KeyCode::RGui, KeyCode::MediaCalc] {
        assert_eq!(KeyCode::try_from(k.to_u8()), Ok(k));
        assert_eq!(k.to_u32(), k.to_u8() as u32 + 0x100000);
    }
    for b in 0..=255u8 {
        if let Ok(k) = KeyCode::try_from(b) {
            assert_eq!(k.to_u8(), b);
        }
    }
    assert_eq!(KeyCode::try_from(0x04), Ok(KeyCode::A));
    assert_eq!(
        KeyCode::try_from(0x8E),
        Err("No discriminant in enum `KeyCode` matches the value `1048718`".to_string())
    );
    assert!(KeyCode::try_from(0xFF).is_err());
}

#[test]
fn test_user_keys_private() {
    assert_eq!(UserKey::UK0.to_u32(), 0xF0100);
    assert_eq!(UserKey::UK99.to_u32(), 0xF0163);
    for u in [UserKey::UK0, UserKey::UK1, UserKey::UK50, UserKey::UK99] {
        assert!(u.to_u32().is_private_keycode());
        assert!(!u.to_u32().is_usb_keycode());
    }
    assert!(KeyCode::RGui.to_u32().is_usb_keycode());
    assert!(!KeyCode::MediaCalc.to_u32().is_usb_keycode());
    assert!(KeyCode::LShift.is_modifier());
    assert_eq!(KeyCode::LShift.as_modifier_bit(), 2);
    assert_eq!(KeyCode::A.as_modifier_bit(), 0);
}

#[test]
fn test_unicode_digits_denote_code_point() {
    let mut out = KeyOutCatcher::new();
    out.state().unicode_mode = UnicodeSendMode::Debug;
    out.send_unicode('\u{1F600}');
    let expect: Vec<Vec<u8>> = [KeyCode::Kp1, KeyCode::F, KeyCode::Kp6, KeyCode::Kp0, KeyCode::Kp0]
        .iter()
        .map(|k| vec![k.to_u8()])
        .collect();
    assert_eq!(out.reports, expect);
    out.clear();
    out.send_unicode('\u{0}');
    assert_eq!(out.reports, vec![vec![KeyCode::Kp0.to_u8()]]);
    out.clear();
    out.state().unicode_mode = UnicodeSendMode::WinCompose;
    out.send_unicode('a');
    let expect: Vec<Vec<u8>> = vec![
        vec![KeyCode::RAlt.to_u8()],
        vec![KeyCode::U.to_u8()],
        vec![KeyCode::Kb6.to_u8()],
        vec![KeyCode::Kb1.to_u8()],
        vec![KeyCode::Enter.to_u8()],
        vec![],
    ];
    assert_eq!(out.reports, expect);
}

#[test]
fn test_string_in_parts() {
    for mode in [UnicodeSendMode::Linux, UnicodeSendMode::WinComposeDvorak, UnicodeSendMode::LinuxDvorak] {
        let mut whole = KeyOutCatcher::new();
        whole.state().unicode_mode = mode;
        whole.send_string("ab\u{e4}");
        let mut parts = KeyOutCatcher::new();
        parts.state().unicode_mode = mode;
        parts.send_string("ab");
        parts.send_string("\u{e4}");
        assert_eq!(whole.reports, parts.reports);
        assert!(!whole.reports.is_empty());
    }
}

#[test]
fn test_state_read_after_write() {
    let mut st = KeyboardState::new();
    assert_eq!(st.len(), 5);
    st.set_modifier(Modifier::Alt, true);
    assert!(st.modifier(Modifier::Alt));
    assert!(!st.modifier(Modifier::Shift));
    assert!(!st.modifier(Modifier::Ctrl));
    assert!(!st.modifier(Modifier::Gui));
    st.set_modifier(Modifier::Alt, false);
    assert!(!st.modifier(Modifier::Alt));
    st.set_unicode_mode(UnicodeSendMode::WinCompose);
    assert_eq!(st.unicode_mode(), UnicodeSendMode::WinCompose);
    assert!(!st.is_handler_enabled(4));
    st.abort_and_clear_events();
    assert!(st.is_handler_enabled(4));
}

#[test]
fn test_toggle_twice_restores() {
    let mut keyboard = Keyboard::new(KeyOutCatcher::new());
    let id = keyboard.add_handler(Box::new(USBKeyboard::new()));
    assert_eq!(id, 5);
    assert!(keyboard.output.state().is_handler_enabled(id));
    keyboard.output.state().toggle_handler(id);
    assert!(!keyboard.output.state().is_handler_enabled(id));
    keyboard.output.state().toggle_handler(id);
    assert!(keyboard.output.state().is_handler_enabled(id));
    keyboard.output.state().set_handler(id, false);
    assert!(!keyboard.output.state().is_handler_enabled(id));
}

#[test]
fn test_future_handler_id() {
    let mut keyboard = Keyboard::new(KeyOutCatcher::new());
    let predicted_next = keyboard.future_handler_id(1);
    let predicted_second = keyboard.future_handler_id(2);
    let first = keyboard.add_handler(Box::new(USBKeyboard::new()));
    let second = keyboard.add_handler(Box::new(UnicodeKeyboard::new()));
    assert_eq!(first, predicted_next);
    assert_eq!(second, predicted_second);
    assert_eq!(first, 5);
    assert_eq!(keyboard.future_handler_id(1), 7);
}

#[test]
fn test_timeouts_collapse() {
    let mut keyboard = Keyboard::new(KeyOutCatcher::new());
    keyboard.add_keypress(KeyCode::A, 3);
    keyboard.add_timeout(100);
    keyboard.add_timeout(200);
    assert_eq!(keyboard.events.len(), 2);
    assert_eq!(keyboard.events[1], (Event::TimeOut(200), EventStatus::Unhandled));
    match keyboard.events[0].0 {
        Event::KeyPress(k) => {
            assert_eq!(k.keycode, KeyCode::A.to_u32());
            assert_eq!(k.original_keycode, KeyCode::A.to_u32());
            assert_eq!(k.ms_since_last, 3);
            assert_eq!(k.running_number, 0);
            assert_eq!(k.flag, 0);
        }
        _ => panic!("expected a key press"),
    }
}

#[test]
fn test_clear_unhandled() {
    let mut keyboard = Keyboard::new(KeyOutCatcher::new());
    keyboard.add_keypress(KeyCode::A, 0);
    keyboard.add_keypress(KeyCode::B, 0);
    keyboard.add_keyrelease(KeyCode::A, 0);
    keyboard.events[1].1 = EventStatus::Ignored;
    keyboard.clear_unhandled();
    assert_eq!(keyboard.events.len(), 1);
    assert_eq!(keyboard.events[0].1, EventStatus::Ignored);
    keyboard.clear_unhandled();
    assert_eq!(keyboard.events.len(), 1);
}

#[test]
fn test_handle_keys_ok_and_err() {
    let mut keyboard = Keyboard::new(KeyOutCatcher::new());
    keyboard.add_handler(Box::new(USBKeyboard::new()));
    keyboard.add_timeout(5);
    assert_eq!(keyboard.handle_keys(), Ok(()));
    assert!(keyboard.events.is_empty()); // timeouts go
    keyboard.add_keypress(UserKey::UK3, 0);
    assert_eq!(keyboard.handle_keys(), Err(()));
    assert_eq!(keyboard.events.len(), 1);
}

#[test]
fn test_many_keys_held() {
    let mut keyboard = Keyboard::new(KeyOutCatcher::new());
    keyboard.add_handler(Box::new(USBKeyboard::new()));
    let keys = [A, B, C, D, E, F, G, H];
    for k in keys.iter() {
        keyboard.add_keypress(*k, 0);
    }
    keyboard.handle_keys().unwrap();
    check_output(&keyboard, &[&keys]);
    assert!(keyboard.events.iter().all(|(_, s)| *s == EventStatus::Ignored));
    keyboard.output.clear();
    keyboard.add_keyrelease(C, 0);
    keyboard.handle_keys().unwrap();
    check_output(&keyboard, &[&[A, B, D, E, F, G, H]]);
}

#[test]
fn test_stacked_rewrite_layers() {
    let first: [(u32, u32); 1] = [(KeyCode::A.to_u32(), KeyCode::B.to_u32())];
    let second: [(u32, u32); 1] = [(KeyCode::B.to_u32(), KeyCode::C.to_u32())];
    let mut keyboard = Keyboard::new(KeyOutCatcher::new());
    let l1 = keyboard.add_handler(Box::new(RewriteLayer::new(&first)));
    let l2 = keyboard.add_handler(Box::new(RewriteLayer::new(&second)));
    keyboard.add_handler(Box::new(USBKeyboard::new()));
    keyboard.output.state().enable_handler(l1);
    keyboard.output.state().enable_handler(l2);
    keyboard.add_keypress(KeyCode::A, 0);
    keyboard.handle_keys().unwrap();
    check_output(&keyboard, &[&[KeyCode::B]]);
    keyboard.output.clear();
    keyboard.add_keypress(KeyCode::B, 0);
    keyboard.handle_keys().unwrap();
    check_output(&keyboard, &[&[KeyCode::B, KeyCode::C]]);
}

/// A press counter that the test can still read after handing it to a handler.
#[derive(Clone)]
struct SharedCounter(Rc<RefCell<PressCounter>>);

impl OnOff for SharedCounter {
    fn on_activate(&mut self, output: &mut KeyOutCatcher) {
        self.0.borrow_mut().on_activate(output);
    }
    fn on_deactivate(&mut self, output: &mut KeyOutCatcher) {
        self.0.borrow_mut().on_deactivate(output);
    }
}

#[test]
fn test_sticky_macro_cycles() {
    let counter = SharedCounter(Rc::new(RefCell::new(PressCounter { down_counter: 0, up_counter: 0 })));
    let mut keyboard = Keyboard::new(KeyOutCatcher::new());
    keyboard.add_handler(Box::new(StickyMacro::new(KeyCode::X, counter.clone())));
    keyboard.add_handler(Box::new(USBKeyboard::new()));
    for round in 1..=3u8 {
        keyboard.add_keypress(KeyCode::X, 0);
        keyboard.add_keyrelease(KeyCode::X, 0);
        keyboard.handle_keys().unwrap();
        assert_eq!(counter.0.borrow().down_counter, round);
        assert_eq!(counter.0.borrow().up_counter, round - 1);
        keyboard.add_keypress(KeyCode::X, 0);
        keyboard.add_keyrelease(KeyCode::X, 0);
        keyboard.handle_keys().unwrap();
        assert_eq!(counter.0.borrow().up_counter, round);
    }
}

#[test]
fn test_handler_defaults() {
    assert!(USBKeyboard::new().default_enabled());
    assert!(UnicodeKeyboard::new().default_enabled());
    assert!(USBKeyboard::new().oneshot_triggers().is_empty());
    let first: Vec<(u32, u32)> = vec![(A.to_u32(), B.to_u32())];
    let l = RewriteLayer::new(&first);
    assert!(!l.default_enabled());
    assert!(l.oneshot_triggers().is_empty());
    let mut keyboard = Keyboard::new(KeyOutCatcher::new());
    let u = keyboard.add_handler(Box::new(USBKeyboard::new()));
    let r = keyboard.add_handler(Box::new(RewriteLayer::new(&first)));
    assert!(keyboard.output.ro_state().is_handler_enabled(u));
    assert!(!keyboard.output.ro_state().is_handler_enabled(r));
}

#[test]
fn test_usb_usage_ids() {
    assert_eq!(KeyCode::VolumeDown.to_u8(), 0x81);
    assert_eq!(KeyCode::Kpcomma.to_u8(), 0x85);
    assert_eq!(KeyCode::Ro.to_u8(), 0x87);
    assert_eq!(KeyCode::Katakanahiragana.to_u8(), 0x88);
    assert_eq!(KeyCode::Yen.to_u8(), 0x89);
    assert_eq!(KeyCode::Henkan.to_u8(), 0x8a);
    assert_eq!(KeyCode::Muhenkan.to_u8(), 0x8b);
    assert_eq!(KeyCode::KpJpComma.to_u8(), 0x8c);
    assert_eq!(KeyCode::Hangeul.to_u8(), 0x90);
    assert_eq!(KeyCode::Hanja.to_u8(), 0x91);
    assert_eq!(KeyCode::Katakana.to_u8(), 0x92);
    assert_eq!(KeyCode::Hiragana.to_u8(), 0x93);
    assert_eq!(KeyCode::Zenkakuhankaku.to_u8(), 0x94);
    assert_eq!(KeyCode::try_from(0x85), Ok(KeyCode::Kpcomma));
    assert!(KeyCode::try_from(0x82).is_err());
    assert!(KeyCode::try_from(0x86).is_err());
    assert!(KeyCode::try_from(0x8d).is_err());
    assert_eq!(KeyCode::try_from(0x94), Ok(KeyCode::Zenkakuhankaku));
    assert_eq!(
        KeyCode::try_from(0x95),
        Err("No discriminant in enum `KeyCode` matches the value `1048725`".to_string())
    );
}

#[test]
fn test_future_handler_ids_ahead() {
    let mut keyboard = Keyboard::new(KeyOutCatcher::new());
    let second = keyboard.future_handler_id(2);
    let third = keyboard.future_handler_id(3);
    keyboard.add_handler(Box::new(USBKeyboard::new()));
    assert_eq!(keyboard.add_handler(Box::new(UnicodeKeyboard::new())), second);
    assert_eq!(keyboard.add_handler(Box::new(USBKeyboard::new())), third);
}

#[test]
fn test_dvorak_hex_keys() {
    for c in "0123456789abcdefABCDEF".chars() {
        let dv = hex_digit_to_keycode_dvorak(c).to_u32();
        let plain = hex_digit_to_keycode(c).to_u32();
        let mapped = DVORAK_MAP.iter().find(|(from, _)| *from == dv).map(|(_, to)| *to).unwrap_or(dv);
        assert_eq!(mapped, plain, "{}", c);
    }
}
