use keytokey::handlers::LayerAction::{RewriteTo, RewriteToShifted, SendStringShifted};
use keytokey::KeyCode::{A, B, C, D, LShift, X, Y};
use keytokey::handlers::{AutoOff, Layer, LayerAction, USBKeyboard, UnicodeKeyboard};
use keytokey::premade::one_shot_handler;
use keytokey::test_helpers::Debugger;
use keytokey::{AcceptsKeycode, KeyCode, KeyOutCatcher, Keyboard, Modifier, UnicodeSendMode, UserKey};

fn check_output(keyboard: &Keyboard, should: &[&[KeyCode]]) {
    let reports = &keyboard.output.reports;
    assert_eq!(should.len(), reports.len(), "reports: {:?}", reports);
    for (ii, report) in should.iter().enumerate() {
        assert_eq!(reports[ii].len(), report.len(), "reports: {:?}", reports);
        for k in report.iter() {
            assert!(reports[ii].contains(&k.to_u8()), "reports: {:?}", reports);
        }
    }
}

trait Checks {
    fn pc(&mut self, key: impl AcceptsKeycode, should: &[&[KeyCode]]);
    fn rc(&mut self, key: impl AcceptsKeycode, should: &[&[KeyCode]]);
}

impl Checks for Keyboard<'_> {
    fn pc(&mut self, key: impl AcceptsKeycode, should: &[&[KeyCode]]) {
        self.add_keypress(key, 50);
        self.handle_keys().unwrap();
        check_output(self, should);
        self.output.clear();
    }
    fn rc(&mut self, key: impl AcceptsKeycode, should: &[&[KeyCode]]) {
        self.add_keyrelease(key, 50);
        self.handle_keys().unwrap();
        check_output(self, should);
        self.output.clear();
    }
}

#[test]
fn layer_test_layer_rewrite() {
    let l = Layer::new(
        vec![(KeyCode::A, LayerAction::RewriteTo(KeyCode::X.to_u32()))],
        AutoOff::No,
    );
    let mut keyboard = Keyboard::new(KeyOutCatcher::new());
    let layer_id = keyboard.add_handler(Box::new(l));
    keyboard.add_handler(Box::new(USBKeyboard::new()));
    keyboard.output.state().enable_handler(layer_id);
    keyboard.add_keypress(KeyCode::B, 0);
    keyboard.handle_keys().unwrap();
    keyboard.add_keyrelease(KeyCode::B, 0);
    keyboard.handle_keys().unwrap();
    keyboard.add_keypress(KeyCode::A, 0);
    keyboard.handle_keys().unwrap();
    keyboard.add_keyrelease(KeyCode::A, 0);
    keyboard.handle_keys().unwrap();
    keyboard.add_keypress(KeyCode::X, 0);
    keyboard.handle_keys().unwrap();
    keyboard.add_keyrelease(KeyCode::X, 0);
    keyboard.handle_keys().unwrap();
    check_output(&keyboard, &[&[KeyCode::B], &[], &[KeyCode::X], &[], &[KeyCode::X], &[]]);
    keyboard.output.clear();
    keyboard.add_keypress(KeyCode::A, 0);
    keyboard.handle_keys().unwrap();
    keyboard.add_keypress(KeyCode::B, 0);
    keyboard.handle_keys().unwrap();
    keyboard.add_keyrelease(KeyCode::B, 0);
    keyboard.handle_keys().unwrap();
    keyboard.add_keyrelease(KeyCode::A, 0);
    keyboard.handle_keys().unwrap();
    check_output(&keyboard, &[&[KeyCode::X], &[KeyCode::X, KeyCode::B], &[KeyCode::X], &[]]);
    keyboard.output.clear();
    keyboard.output.state().disable_handler(layer_id);
    keyboard.add_keypress(KeyCode::A, 0);
    keyboard.handle_keys().unwrap();
    keyboard.add_keyrelease(KeyCode::A, 0);
    keyboard.handle_keys().unwrap();
    check_output(&keyboard, &[&[KeyCode::A], &[]]);
    keyboard.output.clear();
    keyboard.output.state().enable_handler(layer_id);
    keyboard.add_keypress(KeyCode::A, 0);
    keyboard.handle_keys().unwrap();
    keyboard.add_keyrelease(KeyCode::A, 0);
    keyboard.handle_keys().unwrap();
    check_output(&keyboard, &[&[KeyCode::X], &[]]);
}

#[test]
fn layer_test_layer_rewrite_shifted() {
    let l = Layer::new(
        vec![(KeyCode::A, LayerAction::RewriteToShifted(KeyCode::M.to_u32(), KeyCode::Z.to_u32()))],
        AutoOff::No,
    );
    let mut keyboard = Keyboard::new(KeyOutCatcher::new());
    let layer_id = keyboard.add_handler(Box::new(l));
    keyboard.add_handler(Box::new(USBKeyboard::new()));
    keyboard.output.state().enable_handler(layer_id);
    assert!(!keyboard.output.state().modifier(Modifier::Shift));
    keyboard.add_keypress(KeyCode::A, 0);
    keyboard.handle_keys().unwrap();
    keyboard.add_keyrelease(KeyCode::A, 0);
    keyboard.handle_keys().unwrap();
    check_output(&keyboard, &[&[KeyCode::M], &[]]);
    keyboard.output.clear();
    keyboard.add_keypress(KeyCode::LShift, 0);
    keyboard.handle_keys().unwrap();
    keyboard.add_keypress(KeyCode::A, 0);
    keyboard.handle_keys().unwrap();
    check_output(&keyboard, &[&[KeyCode::LShift], &[KeyCode::LShift, KeyCode::Z]]);
    assert!(keyboard.output.state().modifier(Modifier::Shift));
    keyboard.output.clear();
    keyboard.add_keyrelease(KeyCode::A, 0);
    keyboard.handle_keys().unwrap();
    check_output(&keyboard, &[&[KeyCode::LShift]]);
    keyboard.output.clear();
    keyboard.add_keyrelease(KeyCode::LShift, 0);
    keyboard.handle_keys().unwrap();
    assert!(!(keyboard.output.state().modifier(Modifier::Shift)));
    check_output(&keyboard, &[&[]]);
}

#[test]
fn layer_test_layer_double_rewrite() {
    let mut keyboard = Keyboard::new(KeyOutCatcher::new());
    let l = Layer::new(
        vec![
            (KeyCode::A, RewriteTo(KeyCode::B.to_u32())),
            (KeyCode::B, RewriteTo(KeyCode::C.to_u32())),
        ],
        AutoOff::No,
    );
    let layer_id = keyboard.add_handler(Box::new(l));
    assert!(!keyboard.output.state().is_handler_enabled(layer_id));
    keyboard.output.state().enable_handler(layer_id);
    keyboard.add_handler(Box::new(USBKeyboard::new()));
    keyboard.add_keypress(KeyCode::A, 0);
    keyboard.handle_keys().unwrap();
    check_output(&keyboard, &[&[KeyCode::B]]);
}

#[test]
fn layer_test_layer_disable_in_the_middle() {
    let mut keyboard = Keyboard::new(KeyOutCatcher::new());
    let l = Layer::new(vec![(KeyCode::A, RewriteTo(KeyCode::B.to_u32()))], AutoOff::No);
    let layer_id = keyboard.add_handler(Box::new(l));
    assert!(!keyboard.output.state().is_handler_enabled(layer_id));
    keyboard.output.state().enable_handler(layer_id);
    keyboard.add_handler(Box::new(USBKeyboard::new()));

    keyboard.add_keypress(KeyCode::A, 0);
    keyboard.handle_keys().unwrap();
    check_output(&keyboard, &[&[KeyCode::B]]);
    keyboard.output.clear();

    keyboard.output.state().disable_handler(layer_id);
    keyboard.add_keyrelease(KeyCode::A, 0);
    keyboard.handle_keys().unwrap();
    check_output(&keyboard, &[&[]]);
    keyboard.output.clear();
}

#[test]
fn test_rewrite_shifted() {
    let mut keyboard = Keyboard::new(KeyOutCatcher::new());
    let l = Layer::new(vec![(KeyCode::A, RewriteToShifted(0xC6, 0xF6))], AutoOff::No);
    let layer_id = keyboard.add_handler(Box::new(l));
    assert!(!keyboard.output.state().is_handler_enabled(layer_id));
    keyboard.output.state().enable_handler(layer_id);
    keyboard.output.state().unicode_mode = UnicodeSendMode::Debug;
    keyboard.add_handler(Box::new(Debugger::new("A")));
    keyboard.add_handler(Box::new(UnicodeKeyboard::new()));
    keyboard.add_handler(Box::new(USBKeyboard::new()));

    keyboard.add_keypress(KeyCode::A, 0);
    keyboard.handle_keys().unwrap();
    check_output(&keyboard, &[&[]]);
    keyboard.output.clear();

    keyboard.add_keyrelease(KeyCode::A, 0);
    keyboard.handle_keys().unwrap();
    check_output(&keyboard, &[&[KeyCode::C], &[KeyCode::Kp6], &[]]);
    keyboard.output.clear();

    keyboard.output.state().set_modifier(Modifier::Shift, true);
    keyboard.add_keypress(KeyCode::A, 0);
    keyboard.add_keyrelease(KeyCode::A, 0);

    keyboard.handle_keys().unwrap();
    check_output(&keyboard, &[&[KeyCode::F], &[KeyCode::Kp6], &[KeyCode::LShift]]);
    keyboard.output.clear();
}

#[test]
fn layer_test_layer_rewrite_unicode() {
    let l = Layer::new(vec![(KeyCode::A, LayerAction::RewriteTo(0xDF))], AutoOff::No);
    let mut keyboard = Keyboard::new(KeyOutCatcher::new());
    keyboard.add_handler(Box::new(Debugger::new("start")));
    keyboard.output.state().unicode_mode = UnicodeSendMode::Debug;
    let layer_id = keyboard.add_handler(Box::new(l));
    keyboard.add_handler(Box::new(Debugger::new("bu")));
    keyboard.add_handler(Box::new(UnicodeKeyboard::new()));
    keyboard.add_handler(Box::new(USBKeyboard::new()));
    keyboard.output.state().enable_handler(layer_id);
    keyboard.add_keypress(KeyCode::J, 0);
    keyboard.handle_keys().unwrap();
    check_output(&keyboard, &[&[KeyCode::J]]);
    keyboard.output.clear();
    keyboard.add_keypress(KeyCode::A, 0);
    keyboard.handle_keys().unwrap();
    check_output(&keyboard, &[&[KeyCode::J]]);
    keyboard.output.clear();
    keyboard.add_keyrelease(KeyCode::A, 0);
    keyboard.handle_keys().unwrap();
    check_output(&keyboard, &[&[KeyCode::D], &[KeyCode::F], &[KeyCode::J]]);
}

#[test]
fn test_rewrite_shifted_string() {
    let mut keyboard = Keyboard::new(KeyOutCatcher::new());
    let l = Layer::new(vec![(KeyCode::A, SendStringShifted("a", "A"))], AutoOff::No);
    let layer_id = keyboard.add_handler(Box::new(l));
    assert!(!keyboard.output.state().is_handler_enabled(layer_id));
    keyboard.output.state().enable_handler(layer_id);
    keyboard.output.state().unicode_mode = UnicodeSendMode::Debug;
    keyboard.add_handler(Box::new(Debugger::new("A")));
    keyboard.add_handler(Box::new(UnicodeKeyboard::new()));
    keyboard.add_handler(Box::new(USBKeyboard::new()));

    keyboard.add_keypress(KeyCode::A, 0);
    keyboard.handle_keys().unwrap();
    check_output(&keyboard, &[&[]]);
    keyboard.output.clear();

    keyboard.add_keyrelease(KeyCode::A, 0);
    keyboard.handle_keys().unwrap();
    check_output(&keyboard, &[&[KeyCode::Kp6], &[KeyCode::Kp1], &[]]);
    keyboard.output.clear();

    keyboard.output.state().set_modifier(Modifier::Shift, true);
    keyboard.add_keypress(KeyCode::A, 0);
    keyboard.add_keyrelease(KeyCode::A, 0);

    keyboard.handle_keys().unwrap();
    // the shift gets sent by the USBKeyboard instead of an empty report
    check_output(&keyboard, &[&[KeyCode::Kp4], &[KeyCode::Kp1], &[KeyCode::LShift]]);
    keyboard.output.clear();
}

#[test]
fn test_layer_auto_off_after_all() {
    let l = Layer::new(vec![(A, LayerAction::RewriteTo(X.to_u32()))], AutoOff::AfterAll);
    let mut keyboard = Keyboard::new(KeyOutCatcher::new());
    let layer_id = keyboard.add_handler(Box::new(l));
    keyboard.add_handler(Box::new(USBKeyboard::new()));

    keyboard.output.state().enable_handler(layer_id);
    assert!(keyboard.output.state().is_handler_enabled(layer_id));
    keyboard.pc(B, &[&[B]]);
    assert!(keyboard.output.state().is_handler_enabled(layer_id));
    keyboard.rc(B, &[&[]]);
    assert!(!keyboard.output.state().is_handler_enabled(layer_id));

    keyboard.output.state().enable_handler(layer_id);
    assert!(keyboard.output.state().is_handler_enabled(layer_id));
    keyboard.pc(A, &[&[X]]);
    assert!(keyboard.output.state().is_handler_enabled(layer_id));
    keyboard.rc(A, &[&[]]);
    assert!(!keyboard.output.state().is_handler_enabled(layer_id));

    keyboard.output.state().enable_handler(layer_id);
    assert!(keyboard.output.state().is_handler_enabled(layer_id));
    keyboard.pc(LShift, &[&[LShift]]);
    assert!(keyboard.output.state().is_handler_enabled(layer_id));
    keyboard.rc(LShift, &[&[]]);
    assert!(!keyboard.output.state().is_handler_enabled(layer_id));
}

#[test]
fn test_layer_auto_off_after_match() {
    let l = Layer::new(vec![(A, LayerAction::RewriteTo(X.to_u32()))], AutoOff::AfterMatch);
    let mut keyboard = Keyboard::new(KeyOutCatcher::new());
    let layer_id = keyboard.add_handler(Box::new(l));
    keyboard.add_handler(Box::new(USBKeyboard::new()));

    keyboard.output.state().enable_handler(layer_id);
    assert!(keyboard.output.state().is_handler_enabled(layer_id));
    keyboard.pc(B, &[&[B]]);
    assert!(keyboard.output.state().is_handler_enabled(layer_id));
    keyboard.rc(B, &[&[]]);
    assert!(keyboard.output.state().is_handler_enabled(layer_id));

    assert!(keyboard.output.state().is_handler_enabled(layer_id));
    keyboard.pc(A, &[&[X]]);
    assert!(keyboard.output.state().is_handler_enabled(layer_id));
    keyboard.rc(A, &[&[]]);
    assert!(!keyboard.output.state().is_handler_enabled(layer_id));

    keyboard.output.state().enable_handler(layer_id);
    assert!(keyboard.output.state().is_handler_enabled(layer_id));
    keyboard.pc(LShift, &[&[LShift]]);
    assert!(keyboard.output.state().is_handler_enabled(layer_id));
    keyboard.rc(LShift, &[&[]]);
    assert!(keyboard.output.state().is_handler_enabled(layer_id));

    keyboard.pc(LShift, &[&[LShift]]);
    keyboard.pc(A, &[&[LShift, X]]);
    assert!(keyboard.output.state().is_handler_enabled(layer_id));
    keyboard.rc(A, &[&[LShift]]);
    assert!(!keyboard.output.state().is_handler_enabled(layer_id));

    keyboard.rc(LShift, &[&[]]);
    assert!(!keyboard.output.state().is_handler_enabled(layer_id));
}

#[test]
fn test_layer_auto_off_after_non_modifier() {
    let l = Layer::new(vec![(A, LayerAction::RewriteTo(X.to_u32()))], AutoOff::AfterNonModifier);
    let mut keyboard = Keyboard::new(KeyOutCatcher::new());
    let layer_id = keyboard.add_handler(Box::new(l));

    let l2 = Layer::new(vec![(C, LayerAction::RewriteTo(Y.to_u32()))], AutoOff::No);
    let layer_id2 = keyboard.add_handler(Box::new(l2));
    let oneshot = one_shot_handler(UserKey::UK0, layer_id2, 0, 0);

    keyboard.add_handler(oneshot);
    keyboard.add_handler(Box::new(USBKeyboard::new()));

    keyboard.output.state().enable_handler(layer_id);
    assert!(keyboard.output.state().is_handler_enabled(layer_id));
    keyboard.pc(B, &[&[B]]);
    assert!(keyboard.output.state().is_handler_enabled(layer_id));
    keyboard.rc(B, &[&[]]);
    assert!(!keyboard.output.state().is_handler_enabled(layer_id));

    keyboard.output.state().enable_handler(layer_id);
    keyboard.pc(A, &[&[X]]);
    assert!(keyboard.output.state().is_handler_enabled(layer_id));
    keyboard.rc(A, &[&[]]);
    assert!(!keyboard.output.state().is_handler_enabled(layer_id));

    keyboard.output.state().enable_handler(layer_id);
    assert!(keyboard.output.state().is_handler_enabled(layer_id));
    keyboard.pc(LShift, &[&[LShift]]);
    assert!(keyboard.output.state().is_handler_enabled(layer_id));
    keyboard.rc(LShift, &[&[]]);
    assert!(keyboard.output.state().is_handler_enabled(layer_id));

    keyboard.pc(LShift, &[&[LShift]]);
    keyboard.pc(A, &[&[LShift, X]]);
    assert!(keyboard.output.state().is_handler_enabled(layer_id));
    keyboard.rc(A, &[&[LShift]]);
    assert!(!keyboard.output.state().is_handler_enabled(layer_id));

    keyboard.rc(LShift, &[&[]]);
    assert!(!keyboard.output.state().is_handler_enabled(layer_id));

    keyboard.output.state().enable_handler(layer_id);
    keyboard.pc(UserKey::UK0, &[&[]]);
    keyboard.rc(UserKey::UK0, &[&[]]);
    assert!(keyboard.output.state().is_handler_enabled(layer_id));
    assert!(keyboard.output.state().is_handler_enabled(layer_id2));
    keyboard.pc(C, &[&[Y]]);
    assert!(keyboard.output.state().is_handler_enabled(layer_id));
    assert!(keyboard.output.state().is_handler_enabled(layer_id2));
    keyboard.rc(C, &[&[]]);
    assert!(!keyboard.output.state().is_handler_enabled(layer_id));
    assert!(!keyboard.output.state().is_handler_enabled(layer_id2));

    keyboard.output.state().enable_handler(layer_id);
    keyboard.pc(UserKey::UK0, &[&[]]);
    keyboard.rc(UserKey::UK0, &[&[]]);
    keyboard.pc(LShift, &[&[LShift]]);
    assert!(keyboard.output.state().is_handler_enabled(layer_id));
    assert!(keyboard.output.state().is_handler_enabled(layer_id2));
    keyboard.pc(D, &[&[D, LShift]]);
    assert!(keyboard.output.state().is_handler_enabled(layer_id));
    //disabled by the one shot
    assert!(!keyboard.output.state().is_handler_enabled(layer_id2));
    keyboard.rc(D, &[&[LShift]]);
    assert!(!keyboard.output.state().is_handler_enabled(layer_id));
    assert!(!keyboard.output.state().is_handler_enabled(layer_id2));
    keyboard.rc(LShift, &[&[]]);

    keyboard.output.state().enable_handler(layer_id);
    keyboard.pc(UserKey::UK0, &[&[]]);
    keyboard.rc(UserKey::UK0, &[&[]]);
    keyboard.pc(LShift, &[&[LShift]]);
    assert!(keyboard.output.state().is_handler_enabled(layer_id));
    assert!(keyboard.output.state().is_handler_enabled(layer_id2));
    keyboard.pc(A, &[&[X, LShift]]);
    assert!(keyboard.output.state().is_handler_enabled(layer_id));
    assert!(!keyboard.output.state().is_handler_enabled(layer_id2));
    keyboard.rc(A, &[&[LShift]]);
    assert!(!keyboard.output.state().is_handler_enabled(layer_id));
    assert!(!keyboard.output.state().is_handler_enabled(layer_id2));
}
