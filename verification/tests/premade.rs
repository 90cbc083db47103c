#![allow(dead_code)]
use keytokey::handlers::{PressReleaseMacro, RewriteLayer, USBKeyboard, UnicodeKeyboard};
use keytokey::premade;
use keytokey::premade::{dvorak, toggle_handler};
use keytokey::{AcceptsKeycode, KeyCode, KeyOutCatcher, Keyboard, Modifier, UserKey};
use Modifier::{Ctrl, Shift};

fn check_output(keyboard: &Keyboard, should: &[&[KeyCode]]) {
    let reports = &keyboard.output.reports;
    assert_eq!(should.len(), reports.len(), "reports: {:?}", reports);
    for (ii, report) in should.iter().enumerate() {
        assert_eq!(reports[ii].len(), report.len(), "reports: {:?}", reports);
        for k in report.iter() {
            assert!(reports[ii].contains(&k.to_u8()), "reports: {:?}", reports);
        }
    }
}

trait Checks {
    fn pc(&mut self, key: impl AcceptsKeycode, should: &[&[KeyCode]]);
}

impl Checks for Keyboard<'_> {
    fn pc(&mut self, key: impl AcceptsKeycode, should: &[&[KeyCode]]) {
        self.add_keypress(key, 50);
        self.handle_keys().unwrap();
        check_output(self, should);
        self.output.clear();
    }
}

#[test]
fn test_toggle_handler() {
    let mut keyboard = Keyboard::new(KeyOutCatcher::new());
    let id = keyboard.add_handler(Box::new(UnicodeKeyboard {}));
    let tid = keyboard.add_handler(toggle_handler(0xF0100u32, id));
    assert!(keyboard.output.state().is_handler_enabled(id));
    assert!(keyboard.output.state().is_handler_enabled(tid));
    keyboard.add_keypress(0xF0100u32, 0);
    keyboard.handle_keys().unwrap();
    assert!(!keyboard.output.state().is_handler_enabled(id));
    keyboard.add_keyrelease(0xF0100u32, 1);
    keyboard.handle_keys().unwrap();
    assert!(!keyboard.output.state().is_handler_enabled(id));
    keyboard.add_keypress(0xF0100u32, 0);
    keyboard.handle_keys().unwrap();
    assert!(keyboard.output.state().is_handler_enabled(id));
}

#[test]
fn test_layer_double_rewrite_dvorak() {
    let mut keyboard = Keyboard::new(KeyOutCatcher::new());
    let l = dvorak();
    let layer_id = keyboard.add_handler(l);
    assert!(!keyboard.output.state().is_handler_enabled(layer_id));
    keyboard.output.state().enable_handler(layer_id);
    keyboard.add_handler(Box::new(USBKeyboard::new()));
    keyboard.add_keypress(KeyCode::Q, 0);
    keyboard.handle_keys().unwrap();
    check_output(&keyboard, &[&[KeyCode::Quote]]);
    keyboard.add_keyrelease(KeyCode::Q, 0);
    keyboard.handle_keys().unwrap();
    check_output(&keyboard, &[&[KeyCode::Quote], &[]]);
}

#[test]
fn test_dvorak_brackets() {
    let mut keyboard = Keyboard::new(KeyOutCatcher::new());
    let dvorak_id = keyboard.add_handler(premade::dvorak());
    keyboard.output.state().enable_handler(dvorak_id);
    keyboard.add_handler(Box::new(USBKeyboard::new()));
    keyboard.add_keypress(KeyCode::LBracket, 0);
    keyboard.handle_keys().unwrap();
    check_output(&keyboard, &[&[KeyCode::Slash]]);
    keyboard.add_keyrelease(KeyCode::LBracket, 0);
    keyboard.handle_keys().unwrap();
    keyboard.output.clear();
    keyboard.add_keypress(KeyCode::RBracket, 0);
    keyboard.handle_keys().unwrap();
    check_output(&keyboard, &[&[KeyCode::Equal]]);
    keyboard.add_keyrelease(KeyCode::RBracket, 0);
    keyboard.handle_keys().unwrap();
    keyboard.output.clear();
}

#[test]
fn test_oneshot_shift() {
    let mut keyboard = Keyboard::new(KeyOutCatcher::new());
    keyboard.add_handler(premade::one_shot_shift(0, 0));
    keyboard.add_handler(Box::new(USBKeyboard::new()));
    keyboard.add_keypress(KeyCode::RShift, 0);
    keyboard.handle_keys().unwrap();
    check_output(&keyboard, &[&[KeyCode::LShift]]); //the one shots always output the L variants
    keyboard.output.clear();
    assert!(keyboard.output.state().modifier(Shift));
    keyboard.add_keyrelease(KeyCode::RShift, 0);
    keyboard.handle_keys().unwrap();
    assert!(keyboard.output.state().modifier(Shift));
    check_output(&keyboard, &[&[KeyCode::LShift]]); //key is released, but shift is still set
    keyboard.output.clear();
    keyboard.add_keypress(KeyCode::A, 0);
    keyboard.handle_keys().unwrap();
    assert!(keyboard.output.state().modifier(Shift));
    check_output(&keyboard, &[&[KeyCode::LShift, KeyCode::A]]); //shift still set
    keyboard.output.clear();
    keyboard.add_keyrelease(KeyCode::A, 0);
    keyboard.handle_keys().unwrap();
    assert!(!keyboard.output.state().modifier(Shift));
    check_output(&keyboard, &[&[]]);
    keyboard.output.clear();
    keyboard.add_keypress(KeyCode::RShift, 0);
    keyboard.handle_keys().unwrap();
    check_output(&keyboard, &[&[KeyCode::LShift]]);
    keyboard.output.clear();
    assert!(keyboard.output.state().modifier(Shift));
    keyboard.add_keypress(KeyCode::A, 0);
    keyboard.handle_keys().unwrap();
    assert!(keyboard.output.state().modifier(Shift));
    check_output(&keyboard, &[&[KeyCode::LShift, KeyCode::A]]);
    keyboard.output.clear();
    keyboard.add_keyrelease(KeyCode::A, 0);
    keyboard.handle_keys().unwrap();
    assert!(keyboard.output.state().modifier(Shift));
    check_output(&keyboard, &[&[KeyCode::LShift]]);
    keyboard.output.clear();
    //we have not released the shift key!
    keyboard.add_keyrelease(KeyCode::RShift, 0);
    keyboard.handle_keys().unwrap();
    assert!(!keyboard.output.state().modifier(Shift));
    check_output(&keyboard, &[&[]]); //now we're good
    keyboard.output.clear();
}

#[test]
fn test_oneshot_interaction() {
    let mut keyboard = Keyboard::new(KeyOutCatcher::new());
    let dv = keyboard.add_handler(premade::dvorak());
    keyboard.add_handler(premade::one_shot_shift(0, 0));
    keyboard.add_handler(premade::one_shot_ctrl(0, 0));
    keyboard.add_handler(premade::one_shot_handler(0xF0000u32, dv, 0, 0));
    keyboard.add_handler(Box::new(USBKeyboard::new()));
    keyboard.add_keypress(KeyCode::RShift, 0);
    keyboard.handle_keys().unwrap();
    check_output(&keyboard, &[&[KeyCode::LShift]]);
    keyboard.output.clear();
    assert!(keyboard.output.state().modifier(Shift));
    keyboard.add_keyrelease(KeyCode::RShift, 0);
    keyboard.handle_keys().unwrap();
    assert!(keyboard.output.state().modifier(Shift));
    check_output(&keyboard, &[&[KeyCode::LShift]]);
    keyboard.output.clear();
    keyboard.add_keypress(KeyCode::RCtrl, 0);
    keyboard.handle_keys().unwrap();
    assert!(keyboard.output.state().modifier(Ctrl));
    assert!(keyboard.output.state().modifier(Shift));
    check_output(&keyboard, &[&[KeyCode::LShift, KeyCode::LCtrl]]);
    keyboard.output.clear();
    keyboard.add_keyrelease(KeyCode::RCtrl, 0);
    keyboard.handle_keys().unwrap();
    assert!(keyboard.output.state().modifier(Shift));
    assert!(keyboard.output.state().modifier(Ctrl));
    check_output(&keyboard, &[&[KeyCode::LShift, KeyCode::LCtrl]]);
    keyboard.output.clear();
    assert!(!keyboard.output.state().is_handler_enabled(dv));
    keyboard.add_keypress(0xF0000u32, 0);
    keyboard.handle_keys().unwrap();
    assert!(keyboard.output.state().modifier(Ctrl));
    assert!(keyboard.output.state().modifier(Shift));
    assert!(keyboard.output.state().is_handler_enabled(dv));
    check_output(&keyboard, &[&[KeyCode::LShift, KeyCode::LCtrl]]);
    keyboard.output.clear();
    keyboard.add_keyrelease(0xF0000u32, 0);
    keyboard.handle_keys().unwrap();
    assert!(keyboard.output.state().modifier(Shift));
    assert!(keyboard.output.state().modifier(Ctrl));
    assert!(keyboard.output.state().is_handler_enabled(dv));
    check_output(&keyboard, &[&[KeyCode::LShift, KeyCode::LCtrl]]);
    keyboard.output.clear();
    keyboard.add_keypress(KeyCode::X, 0);
    keyboard.handle_keys().unwrap();
    assert!(keyboard.output.state().modifier(Shift));
    assert!(keyboard.output.state().modifier(Ctrl));
    assert!(keyboard.output.state().is_handler_enabled(dv));
    check_output(&keyboard, &[&[KeyCode::LShift, KeyCode::LCtrl, KeyCode::Q]]);
    keyboard.output.clear();
    keyboard.add_keyrelease(KeyCode::X, 0);
    keyboard.handle_keys().unwrap();
    assert!(!keyboard.output.state().modifier(Shift));
    assert!(!keyboard.output.state().modifier(Ctrl));
    assert!(!keyboard.output.state().is_handler_enabled(dv));
    check_output(&keyboard, &[&[]]);
}

#[test]
fn test_oneshot_rapid_typing() {
    let mut keyboard = Keyboard::new(KeyOutCatcher::new());
    keyboard.add_handler(premade::one_shot_shift(0, 0));
    keyboard.add_handler(Box::new(USBKeyboard::new()));
    keyboard.add_keypress(KeyCode::RShift, 0);
    keyboard.handle_keys().unwrap();
    check_output(&keyboard, &[&[KeyCode::LShift]]);
    keyboard.output.clear();
    assert!(keyboard.output.state().modifier(Shift));
    keyboard.add_keyrelease(KeyCode::RShift, 50);
    keyboard.handle_keys().unwrap();
    assert!(keyboard.output.state().modifier(Shift));
    check_output(&keyboard, &[&[KeyCode::LShift]]);
    keyboard.output.clear();
    keyboard.add_keypress(KeyCode::A, 50);
    keyboard.handle_keys().unwrap();
    assert!(keyboard.output.state().modifier(Shift));
    check_output(&keyboard, &[&[KeyCode::LShift, KeyCode::A]]);
    keyboard.output.clear();
    keyboard.add_keypress(KeyCode::B, 50);
    keyboard.handle_keys().unwrap();
    assert!(!keyboard.output.state().modifier(Shift));
    check_output(&keyboard, &[&[KeyCode::A, KeyCode::B]]);
    keyboard.output.clear();
    keyboard.add_keyrelease(KeyCode::A, 50);
    keyboard.handle_keys().unwrap();
    assert!(!keyboard.output.state().modifier(Shift));
    check_output(&keyboard, &[&[KeyCode::B]]);
    keyboard.output.clear();
    keyboard.add_keyrelease(KeyCode::A, 50);
    keyboard.handle_keys().unwrap();
    assert!(!keyboard.output.state().modifier(Shift));
    check_output(&keyboard, &[&[KeyCode::B]]);
    keyboard.output.clear();
}

#[test]
fn test_oneshot_released_timeout() {
    let mut keyboard = Keyboard::new(KeyOutCatcher::new());
    keyboard.add_handler(premade::one_shot_shift(0, 1000));
    keyboard.add_handler(Box::new(USBKeyboard::new()));

    keyboard.add_keypress(KeyCode::RShift, 0);
    keyboard.handle_keys().unwrap();
    check_output(&keyboard, &[&[KeyCode::LShift]]);
    keyboard.output.clear();
    assert!(keyboard.output.state().modifier(Shift));

    keyboard.add_timeout(1000);
    keyboard.handle_keys().unwrap();
    check_output(&keyboard, &[&[KeyCode::LShift]]);
    keyboard.output.clear();
    assert!(keyboard.output.state().modifier(Shift));

    keyboard.add_keyrelease(KeyCode::RShift, 0);
    keyboard.handle_keys().unwrap();
    check_output(&keyboard, &[&[KeyCode::LShift]]);
    keyboard.output.clear();

    keyboard.add_timeout(1000);
    keyboard.handle_keys().unwrap();
    assert!(!keyboard.output.state().modifier(Shift));
    check_output(&keyboard, &[&[]]);
}

#[test]
fn test_abort() {
    let map: [(u32, u32); 1] = [(KeyCode::A.to_u32(), KeyCode::X.to_u32())];
    let mut keyboard = Keyboard::new(KeyOutCatcher::new());
    let mut aa = premade::ActionAbort::new();
    let should_enable = keyboard.add_handler(premade::one_shot_alt(0, 0));
    let should_disable = keyboard.add_handler(Box::new(RewriteLayer::new(&map)));
    keyboard.output.state().enable_handler(should_disable);
    keyboard.output.state().disable_handler(should_enable);

    aa.set_abort_status(should_enable, true);
    aa.set_abort_status(should_disable, false);

    keyboard.add_handler(Box::new(PressReleaseMacro::new(UserKey::UK0, aa)));
    keyboard.add_handler(Box::new(USBKeyboard {}));

    assert!(!keyboard.output.state().is_handler_enabled(should_enable));
    assert!(keyboard.output.state().is_handler_enabled(should_disable));

    keyboard.pc(KeyCode::LShift, &[&[KeyCode::LShift]]);
    assert!(keyboard.output.state().modifier(Shift));
    keyboard.add_keypress(UserKey::UK0, 50);
    keyboard.add_keypress(KeyCode::A, 50);
    keyboard.handle_keys().unwrap();
    check_output(&keyboard, &[]);

    assert!(keyboard.output.state().is_handler_enabled(should_enable));
    assert!(!keyboard.output.state().is_handler_enabled(should_disable));

    assert!(keyboard.events.is_empty());
}

#[test]
fn test_abort_resets_modifiers() {
    let mut keyboard = Keyboard::new(KeyOutCatcher::new());
    let aa = premade::ActionAbort::new();
    let usb = keyboard.add_handler(Box::new(USBKeyboard {}));
    keyboard.add_handler(Box::new(PressReleaseMacro::new(UserKey::UK0, aa)));
    keyboard.pc(KeyCode::LShift, &[&[KeyCode::LShift]]);
    keyboard.pc(KeyCode::LCtrl, &[&[KeyCode::LShift, KeyCode::LCtrl]]);
    assert!(keyboard.output.state().modifier(Shift));
    assert!(keyboard.output.state().modifier(Ctrl));
    keyboard.add_keypress(UserKey::UK0, 50);
    keyboard.handle_keys().unwrap();
    assert!(!keyboard.output.state().modifier(Shift));
    assert!(!keyboard.output.state().modifier(Ctrl));
    assert!(keyboard.events.is_empty());
    assert!(keyboard.output.state().is_handler_enabled(usb));
}

#[test]
fn test_inverse_action_handler_debug() {
    let map: [(u32, u32); 1] = [(KeyCode::A.to_u32(), KeyCode::X.to_u32())];
    let mut keyboard = Keyboard::new(KeyOutCatcher::new());
    let layer = keyboard.add_handler(Box::new(RewriteLayer::new(&map)));
    keyboard.output.state().enable_handler(layer);
    keyboard.add_handler(Box::new(PressReleaseMacro::new(
        UserKey::UK0,
        premade::InverseActionHandler::new(layer),
    )));
    keyboard.add_handler(Box::new(USBKeyboard {}));
    keyboard.add_keypress(UserKey::UK0, 0);
    keyboard.handle_keys().unwrap();
    assert!(!keyboard.output.state().is_handler_enabled(layer));
    assert_eq!(keyboard.output.debug_messages, vec!["off".to_string()]);
    keyboard.add_keyrelease(UserKey::UK0, 0);
    keyboard.handle_keys().unwrap();
    assert!(keyboard.output.state().is_handler_enabled(layer));
    assert_eq!(keyboard.output.debug_messages, vec!["off".to_string(), "on".to_string()]);
}
