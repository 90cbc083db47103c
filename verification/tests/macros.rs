#![allow(dead_code)]
use keytokey::handlers::{OnOff, PressReleaseMacro, StickyMacro, USBKeyboard};
use keytokey::test_helpers::PressCounter;
use keytokey::{AcceptsKeycode, KeyCode, KeyOutCatcher, Keyboard, UserKey};
use std::cell::RefCell;
use std::rc::Rc;

fn check_output(keyboard: &Keyboard, should: &[&[KeyCode]]) {
    let reports = &keyboard.output.reports;
    assert_eq!(should.len(), reports.len(), "reports: {:?}", reports);
    for (ii, report) in should.iter().enumerate() {
        assert_eq!(reports[ii].len(), report.len(), "reports: {:?}", reports);
        for k in report.iter() {
            assert!(reports[ii].contains(&k.to_u8()), "reports: {:?}", reports);
        }
    }
}

trait Checks {
    fn pc(&mut self, key: impl AcceptsKeycode, should: &[&[KeyCode]]);
    fn rc(&mut self, key: impl AcceptsKeycode, should: &[&[KeyCode]]);
    fn tc(&mut self, ms_since_last: u16, should: &[&[KeyCode]]);
}

impl Checks for Keyboard<'_> {
    fn pc(&mut self, key: impl AcceptsKeycode, should: &[&[KeyCode]]) {
        self.add_keypress(key, 50);
        self.handle_keys().unwrap();
        check_output(self, should);
        self.output.clear();
    }
    fn rc(&mut self, key: impl AcceptsKeycode, should: &[&[KeyCode]]) {
        self.add_keyrelease(key, 50);
        self.handle_keys().unwrap();
        check_output(self, should);
        self.output.clear();
    }
    fn tc(&mut self, ms_since_last: u16, should: &[&[KeyCode]]) {
        self.add_timeout(ms_since_last);
        self.handle_keys().unwrap();
        check_output(self, should);
        self.output.clear();
    }
}

/// A press counter that the test can still read after handing it to a handler.
#[derive(Clone)]
struct SharedCounter(Rc<RefCell<PressCounter>>);

impl SharedCounter {
    fn new() -> SharedCounter {
        SharedCounter(Rc::new(RefCell::new(PressCounter { down_counter: 0, up_counter: 0 })))
    }
    fn down(&self) -> u8 {
        self.0.borrow().down_counter
    }
    fn up(&self) -> u8 {
        self.0.borrow().up_counter
    }
    fn reset(&self) {
        self.0.borrow_mut().down_counter = 0;
        self.0.borrow_mut().up_counter = 0;
    }
}

impl OnOff for SharedCounter {
    fn on_activate(&mut self, output: &mut KeyOutCatcher) {
        self.0.borrow_mut().on_activate(output);
    }
    fn on_deactivate(&mut self, output: &mut KeyOutCatcher) {
        self.0.borrow_mut().on_deactivate(output);
    }
}

#[test]
fn macros_test_press_release() {
    let counter = SharedCounter::new();
    let t = PressReleaseMacro::new(UserKey::UK0, counter.clone());
    let mut keyboard = Keyboard::new(KeyOutCatcher::new());
    keyboard.add_handler(Box::new(t));
    keyboard.add_handler(Box::new(USBKeyboard::new()));
    //first press - sets
    keyboard.add_keypress(UserKey::UK0, 0);
    keyboard.handle_keys().unwrap();
    assert!(counter.down() == 1);
    assert!(counter.up() == 0);
    assert!(keyboard.events.is_empty());
    check_output(&keyboard, &[&[KeyCode::H], &[]]);
    keyboard.output.clear();
    //first release - no change
    keyboard.add_keyrelease(UserKey::UK0, 0);
    keyboard.handle_keys().unwrap();
    assert!(counter.down() == 1);
    assert!(counter.up() == 1);
    check_output(&keyboard, &[&[KeyCode::I], &[]]);
    keyboard.output.clear();
}

#[test]
fn macros_test_sticky_macro() {
    let counter = SharedCounter::new();
    let l = StickyMacro::new(KeyCode::X, counter.clone());
    let mut keyboard = Keyboard::new(KeyOutCatcher::new());
    keyboard.add_handler(Box::new(l));
    keyboard.add_handler(Box::new(USBKeyboard::new()));
    //activate
    keyboard.add_keypress(KeyCode::X, 0);
    keyboard.handle_keys().unwrap();
    check_output(&keyboard, &[&[KeyCode::H], &[]]);
    keyboard.output.clear();

    assert!(counter.down() == 1);
    assert!(counter.up() == 0);
    //ignore
    keyboard.add_keyrelease(KeyCode::X, 0);
    keyboard.handle_keys().unwrap();
    check_output(&keyboard, &[&[]]);
    keyboard.output.clear();
    //ignore
    keyboard.add_keypress(KeyCode::X, 0);
    keyboard.handle_keys().unwrap();
    check_output(&keyboard, &[&[]]);
    keyboard.output.clear();

    assert!(counter.down() == 1);
    assert!(counter.up() == 0);
    //deactivate
    keyboard.add_keyrelease(KeyCode::X, 0);
    keyboard.handle_keys().unwrap();
    check_output(&keyboard, &[&[KeyCode::I], &[]]);
    assert!(counter.down() == 1);
    assert!(counter.up() == 1);
}
