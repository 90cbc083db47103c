use keytokey::handlers::RewriteLayer;
use keytokey::handlers::USBKeyboard;
use keytokey::KeyCode::{A, LAlt, LCtrl, LGui, LShift, RAlt, RCtrl, RGui, RShift, X};
use keytokey::{AcceptsKeycode, KeyCode, KeyOutCatcher, Keyboard, Modifier};

fn check_output(keyboard: &Keyboard, should: &[&[KeyCode]]) {
    let reports = &keyboard.output.reports;
    assert_eq!(should.len(), reports.len(), "reports: {:?}", reports);
    for (ii, report) in should.iter().enumerate() {
        assert_eq!(reports[ii].len(), report.len(), "reports: {:?}", reports);
        for k in report.iter() {
            assert!(reports[ii].contains(&k.to_u8()), "reports: {:?}", reports);
        }
    }
}

fn mods(keyboard: &mut Keyboard) -> (bool, bool, bool, bool) {
    let st = keyboard.output.state();
    (
        st.modifier(Modifier::Shift),
        st.modifier(Modifier::Alt),
        st.modifier(Modifier::Ctrl),
        st.modifier(Modifier::Gui),
    )
}

#[test]
fn test_usbkeyboard_single_key() {
    let mut keyboard = Keyboard::new(KeyOutCatcher::new());
    keyboard.add_handler(Box::new(USBKeyboard::new()));
    keyboard.add_keypress(KeyCode::A, 0);
    keyboard.handle_keys().unwrap();
    check_output(&keyboard, &[&[KeyCode::A]]);
    assert!(!keyboard.events.is_empty());
    keyboard.add_keyrelease(KeyCode::A, 20);
    assert!(keyboard.events.len() == 2);
    keyboard.output.clear();
    keyboard.handle_keys().unwrap();
    check_output(&keyboard, &[&[]]);
    assert!(keyboard.events.is_empty());
}

#[test]
fn test_usbkeyboard_multiple_key() {
    let mut keyboard = Keyboard::new(KeyOutCatcher::new());
    keyboard.add_handler(Box::new(USBKeyboard::new()));
    keyboard.add_keypress(A, 0);
    keyboard.handle_keys().unwrap();
    check_output(&keyboard, &[&[A]]);
    assert!(!keyboard.events.is_empty());

    keyboard.output.clear();
    keyboard.add_keypress(KeyCode::X, 0);
    keyboard.handle_keys().unwrap();
    check_output(&keyboard, &[&[A, X]]);
    assert!(!keyboard.events.is_empty());

    keyboard.output.clear();
    keyboard.add_keyrelease(KeyCode::A, 20);
    assert!(keyboard.events.len() == 3);
    keyboard.handle_keys().unwrap();
    check_output(&keyboard, &[&[X]]);
    assert!(!keyboard.events.is_empty());

    keyboard.output.clear();
    keyboard.add_keyrelease(KeyCode::X, 20);
    assert!(keyboard.events.len() == 2);
    keyboard.handle_keys().unwrap();
    check_output(&keyboard, &[&[]]);
    assert!(keyboard.events.is_empty());
}

#[test]
fn test_panic_on_unhandled() {
    let mut keyboard = Keyboard::new(KeyOutCatcher::new());
    keyboard.add_handler(Box::new(USBKeyboard::new()));
    keyboard.add_keypress(0xF0000u32, 0);
    assert!(keyboard.handle_keys().is_err());
}

#[test]
fn test_modifiers_add_left_keycodes() {
    let mut keyboard = Keyboard::new(KeyOutCatcher::new());
    keyboard.add_handler(Box::new(USBKeyboard::new()));

    keyboard.add_keypress(KeyCode::Kb1, 0);
    keyboard.handle_keys().unwrap();
    check_output(&keyboard, &[&[KeyCode::Kb1]]);

    keyboard.output.clear();
    keyboard.add_keyrelease(KeyCode::Kb1, 0);
    keyboard.handle_keys().unwrap();
    check_output(&keyboard, &[&[]]);
    keyboard.output.clear();

    keyboard.output.state().set_modifier(Modifier::Shift, true);

    keyboard.add_keypress(KeyCode::Kb1, 0);
    keyboard.handle_keys().unwrap();
    check_output(&keyboard, &[&[KeyCode::Kb1, KeyCode::LShift]]);

    keyboard.output.clear();
    keyboard.add_keyrelease(KeyCode::Kb1, 0);
    keyboard.handle_keys().unwrap();
    check_output(&keyboard, &[&[KeyCode::LShift]]);
    keyboard.output.clear();

    keyboard.output.state().set_modifier(Modifier::Shift, false);
    keyboard.output.state().set_modifier(Modifier::Ctrl, true);

    keyboard.add_keypress(KeyCode::Kb1, 0);
    keyboard.handle_keys().unwrap();
    check_output(&keyboard, &[&[KeyCode::Kb1, KeyCode::LCtrl]]);

    keyboard.output.clear();
    keyboard.add_keyrelease(KeyCode::Kb1, 0);
    keyboard.handle_keys().unwrap();
    check_output(&keyboard, &[&[KeyCode::LCtrl]]);
    keyboard.output.clear();

    keyboard.output.state().set_modifier(Modifier::Ctrl, false);
    keyboard.output.state().set_modifier(Modifier::Alt, true);

    keyboard.add_keypress(KeyCode::Kb1, 0);
    keyboard.handle_keys().unwrap();
    check_output(&keyboard, &[&[KeyCode::Kb1, KeyCode::LAlt]]);

    keyboard.output.clear();
    keyboard.add_keyrelease(KeyCode::Kb1, 0);
    keyboard.handle_keys().unwrap();
    check_output(&keyboard, &[&[KeyCode::LAlt]]);
    keyboard.output.clear();

    keyboard.output.state().set_modifier(Modifier::Alt, false);
    keyboard.output.state().set_modifier(Modifier::Gui, true);

    keyboard.add_keypress(KeyCode::Kb1, 0);
    keyboard.handle_keys().unwrap();
    check_output(&keyboard, &[&[KeyCode::Kb1, KeyCode::LGui]]);

    keyboard.output.clear();
    keyboard.add_keyrelease(KeyCode::Kb1, 0);
    keyboard.handle_keys().unwrap();
    check_output(&keyboard, &[&[KeyCode::LGui]]);
}

fn step(keyboard: &mut Keyboard, press: bool, key: KeyCode, should: &[KeyCode], m: (bool, bool, bool, bool)) {
    if press {
        keyboard.add_keypress(key, 0);
    } else {
        keyboard.add_keyrelease(key, 0);
    }
    keyboard.handle_keys().unwrap();
    check_output(keyboard, &[should]);
    assert_eq!(mods(keyboard), m);
    keyboard.output.clear();
}

#[test]
fn test_modifiers_set_by_keycodes() {
    let mut keyboard = Keyboard::new(KeyOutCatcher::new());
    keyboard.add_handler(Box::new(USBKeyboard::new()));
    // (shift, alt, ctrl, meta)
    step(&mut keyboard, true, LShift, &[LShift], (true, false, false, false));
    step(&mut keyboard, true, LAlt, &[LShift, LAlt], (true, true, false, false));
    step(&mut keyboard, true, LCtrl, &[LShift, LAlt, LCtrl], (true, true, true, false));
    step(&mut keyboard, true, LGui, &[LShift, LAlt, LCtrl, LGui], (true, true, true, true));
    step(&mut keyboard, false, LGui, &[LShift, LAlt, LCtrl], (true, true, true, false));
    step(&mut keyboard, false, LCtrl, &[LShift, LAlt], (true, true, false, false));
    step(&mut keyboard, false, LAlt, &[LShift], (true, false, false, false));
    step(&mut keyboard, false, LShift, &[], (false, false, false, false));

    step(&mut keyboard, true, RShift, &[RShift], (true, false, false, false));
    step(&mut keyboard, true, RAlt, &[RShift, RAlt], (true, true, false, false));
    step(&mut keyboard, true, RCtrl, &[RShift, RAlt, RCtrl], (true, true, true, false));
    step(&mut keyboard, true, RGui, &[RShift, RAlt, RCtrl, RGui], (true, true, true, true));
    step(&mut keyboard, false, RGui, &[RShift, RAlt, RCtrl], (true, true, true, false));
    step(&mut keyboard, false, RCtrl, &[RShift, RAlt], (true, true, false, false));
    step(&mut keyboard, false, RAlt, &[RShift], (true, false, false, false));
    step(&mut keyboard, false, RShift, &[], (false, false, false, false));

    keyboard.add_keypress(LShift, 0);
    keyboard.add_keypress(RShift, 0);
    keyboard.handle_keys().unwrap();
    check_output(&keyboard, &[&[LShift, RShift]]);
    assert_eq!(mods(&mut keyboard), (true, false, false, false));
    keyboard.output.clear();
}

#[test]
fn test_usbkeyboard_pairs_by_physical_key() {
    let map: [(u32, u32); 1] = [(KeyCode::A.to_u32(), KeyCode::B.to_u32())];
    let mut keyboard = Keyboard::new(KeyOutCatcher::new());
    let layer = keyboard.add_handler(Box::new(RewriteLayer::new(&map)));
    keyboard.add_handler(Box::new(USBKeyboard::new()));
    keyboard.output.state().enable_handler(layer);
    // the physical B key is held
    keyboard.add_keypress(KeyCode::B, 0);
    keyboard.handle_keys().unwrap();
    check_output(&keyboard, &[&[KeyCode::B]]);
    keyboard.output.clear();
    // the physical A key, rewritten to B, is tapped
    keyboard.add_keypress(KeyCode::A, 0);
    keyboard.handle_keys().unwrap();
    check_output(&keyboard, &[&[KeyCode::B]]);
    keyboard.output.clear();
    keyboard.add_keyrelease(KeyCode::A, 0);
    keyboard.handle_keys().unwrap();
    // the held physical B is still reported
    check_output(&keyboard, &[&[KeyCode::B]]);
    assert_eq!(keyboard.events.len(), 1);
    keyboard.output.clear();
    keyboard.add_keyrelease(KeyCode::B, 0);
    keyboard.handle_keys().unwrap();
    check_output(&keyboard, &[&[]]);
    assert!(keyboard.events.is_empty());
}
