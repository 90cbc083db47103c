#![allow(dead_code)]
use keytokey::handlers::{Action, LongTap, OnOff, TapDance, TapDanceAction, TapDanceEnd, USBKeyboard};
use keytokey::test_helpers::PressCounter;
use keytokey::{AcceptsKeycode, KeyCode, KeyOutCatcher, Keyboard, UserKey};
use std::cell::RefCell;
use std::rc::Rc;

fn check_output(keyboard: &Keyboard, should: &[&[KeyCode]]) {
    let reports = &keyboard.output.reports;
    assert_eq!(should.len(), reports.len(), "reports: {:?}", reports);
    for (ii, report) in should.iter().enumerate() {
        assert_eq!(reports[ii].len(), report.len(), "reports: {:?}", reports);
        for k in report.iter() {
            assert!(reports[ii].contains(&k.to_u8()), "reports: {:?}", reports);
        }
    }
}

trait Checks {
    fn pc(&mut self, key: impl AcceptsKeycode, should: &[&[KeyCode]]);
    fn rc(&mut self, key: impl AcceptsKeycode, should: &[&[KeyCode]]);
    fn tc(&mut self, ms_since_last: u16, should: &[&[KeyCode]]);
}

impl Checks for Keyboard<'_> {
    fn pc(&mut self, key: impl AcceptsKeycode, should: &[&[KeyCode]]) {
        self.add_keypress(key, 50);
        self.handle_keys().unwrap();
        check_output(self, should);
        self.output.clear();
    }
    fn rc(&mut self, key: impl AcceptsKeycode, should: &[&[KeyCode]]) {
        self.add_keyrelease(key, 50);
        self.handle_keys().unwrap();
        check_output(self, should);
        self.output.clear();
    }
    fn tc(&mut self, ms_since_last: u16, should: &[&[KeyCode]]) {
        self.add_timeout(ms_since_last);
        self.handle_keys().unwrap();
        check_output(self, should);
        self.output.clear();
    }
}

/// A press counter that the test can still read after handing it to a handler.
#[derive(Clone)]
struct SharedCounter(Rc<RefCell<PressCounter>>);

impl SharedCounter {
    fn new() -> SharedCounter {
        SharedCounter(Rc::new(RefCell::new(PressCounter { down_counter: 0, up_counter: 0 })))
    }
    fn down(&self) -> u8 {
        self.0.borrow().down_counter
    }
    fn up(&self) -> u8 {
        self.0.borrow().up_counter
    }
    fn reset(&self) {
        self.0.borrow_mut().down_counter = 0;
        self.0.borrow_mut().up_counter = 0;
    }
}

impl OnOff for SharedCounter {
    fn on_activate(&mut self, output: &mut KeyOutCatcher) {
        self.0.borrow_mut().on_activate(output);
    }
    fn on_deactivate(&mut self, output: &mut KeyOutCatcher) {
        self.0.borrow_mut().on_deactivate(output);
    }
}

#[derive(Debug)]
struct TapDanceLogger {
    other_key_taps: u16,
    timeout_taps: u16,
}

/// A tap dance logger that the test can still read.
#[derive(Clone)]
struct SharedLogger(Rc<RefCell<TapDanceLogger>>);

impl TapDanceAction for SharedLogger {
    fn on_tapdance(&mut self, _trigger: u32, output: &mut KeyOutCatcher, tap_count: u8, tap_end: TapDanceEnd) {
        match tap_end {
            TapDanceEnd::OtherKey => self.0.borrow_mut().other_key_taps += tap_count as u16,
            TapDanceEnd::Timeout => self.0.borrow_mut().timeout_taps += tap_count as u16,
        }
        output.send_keys(&[KeyCode::A]);
    }
}

#[test]
fn tapdance_test_tapdance() {
    let record = SharedLogger(Rc::new(RefCell::new(TapDanceLogger { other_key_taps: 0, timeout_taps: 0 })));
    let l = TapDance::new(KeyCode::X, record.clone(), 250);
    let mut keyboard = Keyboard::new(KeyOutCatcher::new());
    keyboard.add_handler(Box::new(l));
    keyboard.add_handler(Box::new(USBKeyboard::new()));
    let counts = |r: &SharedLogger| (r.0.borrow().other_key_taps, r.0.borrow().timeout_taps);
    //simplest case, one press/release then another key
    keyboard.pc(KeyCode::X, &[&[]]);
    assert_eq!(counts(&record), (0, 0));
    keyboard.rc(KeyCode::X, &[&[]]);
    assert_eq!(counts(&record), (0, 0));
    keyboard.pc(KeyCode::Z, &[&[KeyCode::A], &[KeyCode::Z]]);
    assert_eq!(counts(&record), (1, 0));
    keyboard.rc(KeyCode::Z, &[&[]]);
    assert_eq!(counts(&record), (1, 0));

    //two taps, then another key
    keyboard.pc(KeyCode::X, &[&[]]);
    keyboard.rc(KeyCode::X, &[&[]]);
    keyboard.pc(KeyCode::X, &[&[]]);
    keyboard.rc(KeyCode::X, &[&[]]);
    assert_eq!(counts(&record), (1, 0));
    keyboard.pc(KeyCode::Z, &[&[KeyCode::A], &[KeyCode::Z]]);
    assert_eq!(counts(&record), (3, 0));
    keyboard.rc(KeyCode::Z, &[&[]]);
    assert_eq!(counts(&record), (3, 0));

    //three taps, then a time out
    keyboard.pc(KeyCode::X, &[&[]]);
    keyboard.rc(KeyCode::X, &[&[]]);
    keyboard.pc(KeyCode::X, &[&[]]);
    keyboard.rc(KeyCode::X, &[&[]]);
    keyboard.pc(KeyCode::X, &[&[]]);
    keyboard.rc(KeyCode::X, &[&[]]);
    assert_eq!(counts(&record), (3, 0));
    //not a timeout...
    keyboard.tc(249, &[&[]]);
    keyboard.tc(250, &[&[KeyCode::A], &[]]);
    assert_eq!(counts(&record), (3, 3));
}

struct Short();
struct Long();

impl Action for Short {
    fn on_trigger(&mut self, output: &mut KeyOutCatcher) {
        output.send_keys(&[KeyCode::A]);
    }
}

impl Action for Long {
    fn on_trigger(&mut self, output: &mut KeyOutCatcher) {
        output.send_keys(&[KeyCode::B]);
    }
}

#[test]
fn test_longtab() {
    let mut keyboard = Keyboard::new(KeyOutCatcher::new());
    let timeout: u16 = 1000;
    keyboard.add_handler(Box::new(LongTap::new(UserKey::UK0, Short {}, Long {}, timeout)));
    keyboard.add_handler(Box::new(USBKeyboard::new()));

    keyboard.add_keypress(UserKey::UK0, 0);
    keyboard.handle_keys().unwrap();
    check_output(&keyboard, &[&[]]);
    keyboard.output.clear();

    keyboard.add_keyrelease(UserKey::UK0, timeout - 1);
    keyboard.handle_keys().unwrap();
    check_output(&keyboard, &[&[KeyCode::A], &[]]);
    keyboard.output.clear();

    keyboard.add_keypress(UserKey::UK0, 0);
    keyboard.handle_keys().unwrap();
    check_output(&keyboard, &[&[]]);
    keyboard.output.clear();

    keyboard.add_keyrelease(UserKey::UK0, timeout);
    keyboard.handle_keys().unwrap();
    check_output(&keyboard, &[&[KeyCode::B], &[]]);
    keyboard.output.clear();
}

#[test]
fn test_longtab_plus_mod() {
    let mut keyboard = Keyboard::new(KeyOutCatcher::new());
    let timeout: u16 = 1000;
    keyboard.add_handler(Box::new(LongTap::new(UserKey::UK0, KeyCode::A, KeyCode::B, timeout)));
    keyboard.add_handler(Box::new(USBKeyboard::new()));

    keyboard.add_keypress(UserKey::UK0, 0);
    keyboard.handle_keys().unwrap();
    check_output(&keyboard, &[&[]]);
    keyboard.output.clear();

    keyboard.add_keyrelease(UserKey::UK0, timeout - 1);
    keyboard.handle_keys().unwrap();
    check_output(&keyboard, &[&[KeyCode::A]]);
    keyboard.output.clear();

    keyboard.add_keypress(KeyCode::LShift, 0);
    keyboard.handle_keys().unwrap();
    keyboard.output.clear();
    keyboard.add_keypress(UserKey::UK0, 0);
    keyboard.handle_keys().unwrap();
    check_output(&keyboard, &[&[KeyCode::LShift]]);
    keyboard.output.clear();

    keyboard.add_keyrelease(UserKey::UK0, timeout);
    keyboard.handle_keys().unwrap();
    check_output(&keyboard, &[&[KeyCode::B, KeyCode::LShift]]);
    keyboard.output.clear();
}
