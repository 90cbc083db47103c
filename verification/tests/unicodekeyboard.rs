use keytokey::handlers::{USBKeyboard, UnicodeKeyboard};
use keytokey::KeyCode::{A, B, E, Enter, Kb3, Kb4, LCtrl, LShift, RAlt, U};
use keytokey::{KeyCode, KeyOutCatcher, Keyboard, UnicodeSendMode};

fn check_output(keyboard: &Keyboard, should: &[&[KeyCode]]) {
    let reports = &keyboard.output.reports;
    assert_eq!(should.len(), reports.len(), "reports: {:?}", reports);
    for (ii, report) in should.iter().enumerate() {
        assert_eq!(reports[ii].len(), report.len(), "reports: {:?}", reports);
        for k in report.iter() {
            assert!(reports[ii].contains(&k.to_u8()), "reports: {:?}", reports);
        }
    }
}

#[test]
fn unicodekeyboard_test_unicode_keyboard_linux() {
    let ub = UnicodeKeyboard {};
    let mut keyboard = Keyboard::new(KeyOutCatcher::new());
    keyboard.add_handler(Box::new(ub));
    keyboard.output.state().unicode_mode = UnicodeSendMode::Linux;
    //no output on press
    keyboard.add_keypress(0x00E4u32, 0);
    keyboard.handle_keys().unwrap();
    assert!(keyboard.output.reports.len() == 0);
    assert!(keyboard.events.is_empty()); // we eat the keypress though
    keyboard.add_keyrelease(0x00E4u32, 0);
    keyboard.handle_keys().unwrap();
    check_output(
        &keyboard,
        &[&[U, LShift, LCtrl], &[E, LShift, LCtrl], &[Kb4, LShift, LCtrl], &[]],
    );
    assert!(keyboard.events.is_empty());
}

#[test]
fn unicodekeyboard_test_unicode_keyboard_wincompose() {
    let ub = UnicodeKeyboard {};
    let mut keyboard = Keyboard::new(KeyOutCatcher::new());
    keyboard.add_handler(Box::new(ub));
    keyboard.output.state().unicode_mode = UnicodeSendMode::WinCompose;
    keyboard.add_keypress(0x03B4u32, 0);
    keyboard.handle_keys().unwrap();
    assert!(keyboard.output.reports.len() == 0);
    assert!(keyboard.events.is_empty());
    keyboard.add_keyrelease(0x03B4u32, 0);
    keyboard.handle_keys().unwrap();
    check_output(&keyboard, &[&[RAlt], &[U], &[Kb3], &[B], &[Kb4], &[Enter], &[]]);
    assert!(keyboard.events.is_empty());
}

#[test]
fn unicodekeyboard_test_unicode_while_depressed() {
    let mut keyboard = Keyboard::new(KeyOutCatcher::new());
    keyboard.add_handler(Box::new(UnicodeKeyboard {}));
    keyboard.add_handler(Box::new(USBKeyboard::new()));
    keyboard.output.state().unicode_mode = UnicodeSendMode::WinCompose;
    keyboard.add_keypress(A, 0);
    keyboard.handle_keys().unwrap();
    check_output(&keyboard, &[&[A]]);
    keyboard.output.clear();
    keyboard.add_keypress(0x3B4u32, 0);
    keyboard.handle_keys().unwrap();
    check_output(&keyboard, &[&[A]]);
    keyboard.add_keyrelease(0x3B4u32, 0);
    keyboard.output.clear();
    keyboard.handle_keys().unwrap();
    check_output(&keyboard, &[&[RAlt], &[U], &[Kb3], &[B], &[Kb4], &[Enter], &[], &[A]]);
    keyboard.add_keyrelease(A, 0);
    keyboard.output.clear();
    keyboard.handle_keys().unwrap();
    check_output(&keyboard, &[&[]]);
    assert!(keyboard.events.is_empty());
}
