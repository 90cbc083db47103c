use keytokey::handlers::{AutoShift, USBKeyboard};
use keytokey::{KeyCode, KeyOutCatcher, Keyboard};

fn check_output(keyboard: &Keyboard, should: &[&[KeyCode]]) {
    let reports = &keyboard.output.reports;
    assert_eq!(should.len(), reports.len(), "reports: {:?}", reports);
    for (ii, report) in should.iter().enumerate() {
        assert_eq!(reports[ii].len(), report.len(), "reports: {:?}", reports);
        for k in report.iter() {
            assert!(reports[ii].contains(&k.to_u8()), "reports: {:?}", reports);
        }
    }
}

#[test]
fn handlers_test_autoshift() {
    let threshold = 200;
    let l = AutoShift::new(threshold);
    let mut keyboard = Keyboard::new(KeyOutCatcher::new());
    keyboard.add_handler(Box::new(l));
    keyboard.add_handler(Box::new(USBKeyboard::new()));
    keyboard.add_keypress(KeyCode::X, 0);
    keyboard.handle_keys().unwrap();
    check_output(&keyboard, &[&[]]);
    keyboard.output.clear();
    keyboard.add_keyrelease(KeyCode::X, threshold - 1);
    keyboard.handle_keys().unwrap();
    check_output(&keyboard, &[&[KeyCode::X], &[]]);
    keyboard.output.clear();
    assert!(keyboard.events.is_empty());
    keyboard.add_keypress(KeyCode::X, 0);
    keyboard.handle_keys().unwrap();
    check_output(&keyboard, &[&[]]);
    keyboard.output.clear();
    keyboard.add_keyrelease(KeyCode::X, threshold + 1);
    keyboard.handle_keys().unwrap();
    check_output(&keyboard, &[&[KeyCode::X, KeyCode::LShift], &[]]);
    keyboard.output.clear();
}

#[test]
fn handlers_test_autoshift_no_letters() {
    let threshold = 200;
    let mut l = AutoShift::new(threshold);
    l.shift_letters = false;
    let mut keyboard = Keyboard::new(KeyOutCatcher::new());
    keyboard.add_handler(Box::new(l));
    keyboard.add_handler(Box::new(USBKeyboard::new()));
    keyboard.add_keypress(KeyCode::Kb1, 0);
    keyboard.handle_keys().unwrap();
    check_output(&keyboard, &[&[]]);
    keyboard.output.clear();
    keyboard.add_keyrelease(KeyCode::Kb1, threshold - 1);
    keyboard.handle_keys().unwrap();
    check_output(&keyboard, &[&[KeyCode::Kb1], &[]]);
    keyboard.output.clear();
    assert!(keyboard.events.is_empty());
    keyboard.add_keypress(KeyCode::Kb1, 0);
    keyboard.handle_keys().unwrap();
    check_output(&keyboard, &[&[]]);
    keyboard.output.clear();
    keyboard.add_keyrelease(KeyCode::Kb1, threshold + 1);
    keyboard.handle_keys().unwrap();
    check_output(&keyboard, &[&[KeyCode::Kb1, KeyCode::LShift], &[]]);
    keyboard.output.clear();
    //this now gets handled by the usb keyboard.
    keyboard.add_keypress(KeyCode::X, 0);
    keyboard.handle_keys().unwrap();
    check_output(&keyboard, &[&[KeyCode::X]]);
    keyboard.output.clear()
}

#[test]
fn autoshift_test_autoshift() {
    let threshold = 200;
    let l = AutoShift::new(threshold);
    let mut keyboard = Keyboard::new(KeyOutCatcher::new());
    keyboard.add_handler(Box::new(l));
    keyboard.add_handler(Box::new(USBKeyboard::new()));
    keyboard.add_keypress(KeyCode::X, 0);
    keyboard.handle_keys().unwrap();
    check_output(&keyboard, &[&[]]);
    keyboard.output.clear();
    keyboard.add_keyrelease(KeyCode::X, threshold - 1);
    keyboard.handle_keys().unwrap();
    check_output(&keyboard, &[&[KeyCode::X], &[]]);
    keyboard.output.clear();
    assert!(keyboard.events.is_empty());
    keyboard.add_keypress(KeyCode::X, 0);
    keyboard.handle_keys().unwrap();
    check_output(&keyboard, &[&[]]);
    keyboard.output.clear();
    keyboard.add_keyrelease(KeyCode::X, threshold + 1);
    keyboard.handle_keys().unwrap();
    check_output(&keyboard, &[&[KeyCode::X, KeyCode::LShift], &[]]);
    keyboard.output.clear();
}

#[test]
fn autoshift_test_autoshift_no_letters() {
    let threshold = 200;
    let mut l = AutoShift::new(threshold);
    l.shift_letters = false;
    let mut keyboard = Keyboard::new(KeyOutCatcher::new());
    keyboard.add_handler(Box::new(l));
    keyboard.add_handler(Box::new(USBKeyboard::new()));
    keyboard.add_keypress(KeyCode::Kb1, 0);
    keyboard.handle_keys().unwrap();
    check_output(&keyboard, &[&[]]);
    keyboard.output.clear();
    keyboard.add_keyrelease(KeyCode::Kb1, threshold - 1);
    keyboard.handle_keys().unwrap();
    check_output(&keyboard, &[&[KeyCode::Kb1], &[]]);
    keyboard.output.clear();
    assert!(keyboard.events.is_empty());
    keyboard.add_keypress(KeyCode::Kb1, 0);
    keyboard.handle_keys().unwrap();
    check_output(&keyboard, &[&[]]);
    keyboard.output.clear();
    keyboard.add_keyrelease(KeyCode::Kb1, threshold + 1);
    keyboard.handle_keys().unwrap();
    check_output(&keyboard, &[&[KeyCode::Kb1, KeyCode::LShift], &[]]);
    keyboard.output.clear();
    //this now gets handled by the usb keyboard.
    keyboard.add_keypress(KeyCode::X, 0);
    keyboard.handle_keys().unwrap();
    check_output(&keyboard, &[&[KeyCode::X]]);
    keyboard.output.clear()
}
