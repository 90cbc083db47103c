#![allow(dead_code)]
use keytokey::handlers::{
    AutoOff, Layer, LayerAction, OnOff, PressReleaseMacro, StickyMacro, TapDance, TapDanceAction,
    TapDanceEnd, USBKeyboard,
};
use keytokey::test_helpers::PressCounter;
use keytokey::{AcceptsKeycode, KeyCode, KeyOutCatcher, Keyboard, Modifier};
use std::cell::RefCell;
use std::rc::Rc;

fn check_output(keyboard: &Keyboard, should: &[&[KeyCode]]) {
    let reports = &keyboard.output.reports;
    assert_eq!(should.len(), reports.len(), "reports: {:?}", reports);
    for (ii, report) in should.iter().enumerate() {
        assert_eq!(reports[ii].len(), report.len(), "reports: {:?}", reports);
        for k in report.iter() {
            assert!(reports[ii].contains(&k.to_u8()), "reports: {:?}", reports);
        }
    }
}

trait Checks {
    fn pc(&mut self, key: impl AcceptsKeycode, should: &[&[KeyCode]]);
    fn rc(&mut self, key: impl AcceptsKeycode, should: &[&[KeyCode]]);
    fn tc(&mut self, ms_since_last: u16, should: &[&[KeyCode]]);
}

impl Checks for Keyboard<'_> {
    fn pc(&mut self, key: impl AcceptsKeycode, should: &[&[KeyCode]]) {
        self.add_keypress(key, 50);
        self.handle_keys().unwrap();
        check_output(self, should);
        self.output.clear();
    }
    fn rc(&mut self, key: impl AcceptsKeycode, should: &[&[KeyCode]]) {
        self.add_keyrelease(key, 50);
        self.handle_keys().unwrap();
        check_output(self, should);
        self.output.clear();
    }
    fn tc(&mut self, ms_since_last: u16, should: &[&[KeyCode]]) {
        self.add_timeout(ms_since_last);
        self.handle_keys().unwrap();
        check_output(self, should);
        self.output.clear();
    }
}

/// A press counter that the test can still read after handing it to a handler.
#[derive(Clone)]
struct SharedCounter(Rc<RefCell<PressCounter>>);

impl SharedCounter {
    fn new() -> SharedCounter {
        SharedCounter(Rc::new(RefCell::new(PressCounter { down_counter: 0, up_counter: 0 })))
    }
    fn down(&self) -> u8 {
        self.0.borrow().down_counter
    }
    fn up(&self) -> u8 {
        self.0.borrow().up_counter
    }
    fn reset(&self) {
        self.0.borrow_mut().down_counter = 0;
        self.0.borrow_mut().up_counter = 0;
    }
}

impl OnOff for SharedCounter {
    fn on_activate(&mut self, output: &mut KeyOutCatcher) {
        self.0.borrow_mut().on_activate(output);
    }
    fn on_deactivate(&mut self, output: &mut KeyOutCatcher) {
        self.0.borrow_mut().on_deactivate(output);
    }
}

/// Sends one key on activation and another on deactivation.
struct SendOnOff {
    on: KeyCode,
    off: KeyCode,
}

impl OnOff for SendOnOff {
    fn on_activate(&mut self, output: &mut KeyOutCatcher) {
        output.send_keys(&[self.on]);
    }
    fn on_deactivate(&mut self, output: &mut KeyOutCatcher) {
        output.send_keys(&[self.off]);
    }
}

#[test]
fn handlers_test_press_release() {
    let counter = SharedCounter::new();
    let t = PressReleaseMacro::new(0xF0000u32, counter.clone());
    let mut keyboard = Keyboard::new(KeyOutCatcher::new());
    keyboard.add_handler(Box::new(t));
    keyboard.add_handler(Box::new(USBKeyboard::new()));
    //first press - sets
    keyboard.add_keypress(0xF0000u32, 0);
    keyboard.handle_keys().unwrap();
    assert!(counter.down() == 1);
    assert!(counter.up() == 0);
    assert!(keyboard.events.is_empty());
    check_output(&keyboard, &[&[KeyCode::H], &[]]);
    keyboard.output.clear();
    //first release
    keyboard.add_keyrelease(0xF0000u32, 0);
    keyboard.handle_keys().unwrap();
    assert!(counter.down() == 1);
    assert!(counter.up() == 1);
    check_output(&keyboard, &[&[KeyCode::I], &[]]);
    keyboard.output.clear();
}

#[test]
fn handlers_test_layer_rewrite() {
    let l = Layer::new(vec![(KeyCode::A, LayerAction::RewriteTo(KeyCode::X.to_u32()))], AutoOff::No);
    let mut keyboard = Keyboard::new(KeyOutCatcher::new());
    let layer_id = keyboard.add_handler(Box::new(l));
    keyboard.add_handler(Box::new(USBKeyboard::new()));
    keyboard.output.state().enable_handler(layer_id);
    keyboard.add_keypress(KeyCode::B, 0);
    keyboard.handle_keys().unwrap();
    keyboard.add_keyrelease(KeyCode::B, 0);
    keyboard.handle_keys().unwrap();
    keyboard.add_keypress(KeyCode::A, 0);
    keyboard.handle_keys().unwrap();
    keyboard.add_keyrelease(KeyCode::A, 0);
    keyboard.handle_keys().unwrap();

    keyboard.add_keypress(KeyCode::X, 0);
    keyboard.handle_keys().unwrap();
    keyboard.add_keyrelease(KeyCode::X, 0);
    keyboard.handle_keys().unwrap();

    check_output(&keyboard, &[&[KeyCode::B], &[], &[KeyCode::X], &[], &[KeyCode::X], &[]]);

    keyboard.output.clear();
    keyboard.add_keypress(KeyCode::A, 0);
    keyboard.handle_keys().unwrap();
    keyboard.add_keypress(KeyCode::B, 0);
    keyboard.handle_keys().unwrap();
    keyboard.add_keyrelease(KeyCode::B, 0);
    keyboard.handle_keys().unwrap();
    keyboard.add_keyrelease(KeyCode::A, 0);
    keyboard.handle_keys().unwrap();
    check_output(&keyboard, &[&[KeyCode::X], &[KeyCode::X, KeyCode::B], &[KeyCode::X], &[]]);

    keyboard.output.clear();
    keyboard.output.state().disable_handler(layer_id);
    keyboard.add_keypress(KeyCode::A, 0);
    keyboard.handle_keys().unwrap();
    keyboard.add_keyrelease(KeyCode::A, 0);
    keyboard.handle_keys().unwrap();
    check_output(&keyboard, &[&[KeyCode::A], &[]]);

    keyboard.output.clear();
    keyboard.output.state().enable_handler(layer_id);
    keyboard.add_keypress(KeyCode::A, 0);
    keyboard.handle_keys().unwrap();
    keyboard.add_keyrelease(KeyCode::A, 0);
    keyboard.handle_keys().unwrap();
    check_output(&keyboard, &[&[KeyCode::X], &[]]);
}

#[test]
fn handlers_test_layer_rewrite_shifted() {
    let l = Layer::new(
        vec![(KeyCode::A, LayerAction::RewriteToShifted(KeyCode::M.to_u32(), KeyCode::Z.to_u32()))],
        AutoOff::No,
    );
    let mut keyboard = Keyboard::new(KeyOutCatcher::new());
    let layer_id = keyboard.add_handler(Box::new(l));
    keyboard.add_handler(Box::new(USBKeyboard::new()));
    keyboard.output.state().enable_handler(layer_id);
    assert!(!keyboard.output.state().modifier(Modifier::Shift));
    keyboard.add_keypress(KeyCode::A, 0);
    keyboard.handle_keys().unwrap();
    keyboard.add_keyrelease(KeyCode::A, 0);
    keyboard.handle_keys().unwrap();
    check_output(&keyboard, &[&[KeyCode::M], &[]]);
    keyboard.output.clear();
    keyboard.add_keypress(KeyCode::LShift, 0);
    keyboard.handle_keys().unwrap();
    keyboard.add_keypress(KeyCode::A, 0);
    keyboard.handle_keys().unwrap();
    check_output(&keyboard, &[&[KeyCode::LShift], &[KeyCode::LShift, KeyCode::Z]]);
    assert!(keyboard.output.state().modifier(Modifier::Shift));
    keyboard.output.clear();
    keyboard.add_keyrelease(KeyCode::A, 0);
    keyboard.handle_keys().unwrap();
    check_output(&keyboard, &[&[KeyCode::LShift]]);
    keyboard.output.clear();
    keyboard.add_keyrelease(KeyCode::LShift, 0);
    keyboard.handle_keys().unwrap();
    assert!(!(keyboard.output.state().modifier(Modifier::Shift)));
    check_output(&keyboard, &[&[]]);
}

/// Sends A, B or C for one, two or three taps, D for more.
struct TapKeys();

impl TapDanceAction for TapKeys {
    fn on_tapdance(&mut self, _trigger: u32, output: &mut KeyOutCatcher, tap_count: u8, _tap_end: TapDanceEnd) {
        match tap_count {
            1 => output.send_keys(&[KeyCode::A]),
            2 => output.send_keys(&[KeyCode::B]),
            3 => output.send_keys(&[KeyCode::C]),
            _ => output.send_keys(&[KeyCode::D]),
        }
    }
}

fn press_check(keyboard: &mut Keyboard, key: KeyCode, ms: u16, should: &[&[KeyCode]]) {
    keyboard.add_keypress(key, ms);
    keyboard.handle_keys().unwrap();
    check_output(keyboard, should);
    keyboard.output.clear();
}

fn release_check(keyboard: &mut Keyboard, key: KeyCode, ms: u16, should: &[&[KeyCode]]) {
    keyboard.add_keyrelease(key, ms);
    keyboard.handle_keys().unwrap();
    check_output(keyboard, should);
    keyboard.output.clear();
}

#[test]
fn handlers_test_tapdance() {
    let timeout: u16 = 250;
    let l = TapDance::new(KeyCode::X, TapKeys(), timeout);
    let mut keyboard = Keyboard::new(KeyOutCatcher::new());
    keyboard.add_handler(Box::new(l));
    keyboard.add_handler(Box::new(USBKeyboard::new()));

    //simplest case, one press/release then another key
    press_check(&mut keyboard, KeyCode::X, 0, &[&[]]);
    release_check(&mut keyboard, KeyCode::X, 10, &[&[]]);
    keyboard.add_keypress(KeyCode::Z, 20);
    keyboard.handle_keys().unwrap();
    check_output(&keyboard, &[&[KeyCode::A], &[KeyCode::Z]]);
    keyboard.add_keyrelease(KeyCode::Z, 20);
    keyboard.handle_keys().unwrap();
    assert!(keyboard.events.is_empty());

    //two taps, then another key
    keyboard.output.clear();
    press_check(&mut keyboard, KeyCode::X, 0, &[&[]]);
    release_check(&mut keyboard, KeyCode::X, 10, &[&[]]);
    press_check(&mut keyboard, KeyCode::X, 20, &[&[]]);
    release_check(&mut keyboard, KeyCode::X, 30, &[&[]]);
    keyboard.add_keypress(KeyCode::Z, 40);
    keyboard.handle_keys().unwrap();
    check_output(&keyboard, &[&[KeyCode::B], &[KeyCode::Z]]);
    keyboard.add_keyrelease(KeyCode::Z, 20);
    keyboard.handle_keys().unwrap();
    assert!(keyboard.events.is_empty());

    //three taps, then a time out
    keyboard.output.clear();
    press_check(&mut keyboard, KeyCode::X, 0, &[&[]]);
    release_check(&mut keyboard, KeyCode::X, 10, &[&[]]);
    press_check(&mut keyboard, KeyCode::X, 20, &[&[]]);
    release_check(&mut keyboard, KeyCode::X, 30, &[&[]]);
    press_check(&mut keyboard, KeyCode::X, 20, &[&[]]);
    release_check(&mut keyboard, KeyCode::X, 30, &[&[]]);

    keyboard.add_timeout(timeout - 1);
    keyboard.handle_keys().unwrap();
    check_output(&keyboard, &[&[]]);
    keyboard.output.clear();

    keyboard.add_timeout(timeout + 1);
    keyboard.handle_keys().unwrap();
    check_output(&keyboard, &[&[KeyCode::C], &[]]);
}

#[test]
fn handlers_test_sticky_macro() {
    let l = StickyMacro::new(KeyCode::X, SendOnOff { on: KeyCode::A, off: KeyCode::B });
    let mut keyboard = Keyboard::new(KeyOutCatcher::new());
    keyboard.add_handler(Box::new(l));
    keyboard.add_handler(Box::new(USBKeyboard::new()));

    //activate
    press_check(&mut keyboard, KeyCode::X, 0, &[&[KeyCode::A], &[]]);
    //ignore
    release_check(&mut keyboard, KeyCode::X, 0, &[&[]]);
    //ignore
    press_check(&mut keyboard, KeyCode::X, 0, &[&[]]);
    //deactivate
    release_check(&mut keyboard, KeyCode::X, 0, &[&[KeyCode::B], &[]]);
}

#[test]
fn test_enable_disable() {
    let mut keyboard = Keyboard::new(KeyOutCatcher::new());
    let prm = PressReleaseMacro::new(KeyCode::A, SendOnOff { on: KeyCode::B, off: KeyCode::C });
    let no = keyboard.add_handler(Box::new(prm));
    keyboard.add_handler(Box::new(USBKeyboard::new()));

    keyboard.add_keypress(KeyCode::A, 0);
    keyboard.handle_keys().unwrap();
    check_output(&keyboard, &[&[KeyCode::B], &[]]);
    keyboard.add_keyrelease(KeyCode::A, 10);
    keyboard.handle_keys().unwrap();
    check_output(&keyboard, &[&[KeyCode::B], &[], &[KeyCode::C], &[]]);

    keyboard.output.clear();
    keyboard.output.state().disable_handler(no);
    keyboard.add_keypress(KeyCode::A, 0);
    keyboard.handle_keys().unwrap();
    check_output(&keyboard, &[&[KeyCode::A]]);
    keyboard.add_keyrelease(KeyCode::A, 10);
    keyboard.handle_keys().unwrap();
    check_output(&keyboard, &[&[KeyCode::A], &[]]);
}
