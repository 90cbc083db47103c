#![allow(dead_code)]
use keytokey::handlers::LayerAction::RewriteTo as RT;
use keytokey::handlers::{AutoOff, Layer, OnOff, SpaceCadet, USBKeyboard};
use keytokey::premade;
use keytokey::test_helpers::PressCounter;
use keytokey::{AcceptsKeycode, KeyCode, KeyOutCatcher, Keyboard, Modifier};
use std::cell::RefCell;
use std::rc::Rc;

fn check_output(keyboard: &Keyboard, should: &[&[KeyCode]]) {
    let reports = &keyboard.output.reports;
    assert_eq!(should.len(), reports.len(), "reports: {:?}", reports);
    for (ii, report) in should.iter().enumerate() {
        assert_eq!(reports[ii].len(), report.len(), "reports: {:?}", reports);
        for k in report.iter() {
            assert!(reports[ii].contains(&k.to_u8()), "reports: {:?}", reports);
        }
    }
}

trait Checks {
    fn pc(&mut self, key: impl AcceptsKeycode, should: &[&[KeyCode]]);
    fn rc(&mut self, key: impl AcceptsKeycode, should: &[&[KeyCode]]);
    fn tc(&mut self, ms_since_last: u16, should: &[&[KeyCode]]);
}

impl Checks for Keyboard<'_> {
    fn pc(&mut self, key: impl AcceptsKeycode, should: &[&[KeyCode]]) {
        self.add_keypress(key, 50);
        self.handle_keys().unwrap();
        check_output(self, should);
        self.output.clear();
    }
    fn rc(&mut self, key: impl AcceptsKeycode, should: &[&[KeyCode]]) {
        self.add_keyrelease(key, 50);
        self.handle_keys().unwrap();
        check_output(self, should);
        self.output.clear();
    }
    fn tc(&mut self, ms_since_last: u16, should: &[&[KeyCode]]) {
        self.add_timeout(ms_since_last);
        self.handle_keys().unwrap();
        check_output(self, should);
        self.output.clear();
    }
}

/// A press counter that the test can still read after handing it to a handler.
#[derive(Clone)]
struct SharedCounter(Rc<RefCell<PressCounter>>);

impl SharedCounter {
    fn new() -> SharedCounter {
        SharedCounter(Rc::new(RefCell::new(PressCounter { down_counter: 0, up_counter: 0 })))
    }
    fn down(&self) -> u8 {
        self.0.borrow().down_counter
    }
    fn up(&self) -> u8 {
        self.0.borrow().up_counter
    }
    fn reset(&self) {
        self.0.borrow_mut().down_counter = 0;
        self.0.borrow_mut().up_counter = 0;
    }
}

impl OnOff for SharedCounter {
    fn on_activate(&mut self, output: &mut KeyOutCatcher) {
        self.0.borrow_mut().on_activate(output);
    }
    fn on_deactivate(&mut self, output: &mut KeyOutCatcher) {
        self.0.borrow_mut().on_deactivate(output);
    }
}

#[test]
fn test_space_cadet() {
    let counter = SharedCounter::new();
    let l = SpaceCadet::new(KeyCode::X, KeyCode::X, counter.clone());
    let threshold = l.minimum_depress_ms;
    let mut keyboard = Keyboard::new(KeyOutCatcher::new());
    keyboard.add_handler(Box::new(l));
    keyboard.add_handler(Box::new(USBKeyboard::new()));
    //the tap...
    keyboard.add_keypress(KeyCode::X, 0);
    keyboard.handle_keys().unwrap();
    check_output(&keyboard, &[&[]]);
    keyboard.output.clear();
    keyboard.add_keyrelease(KeyCode::X, 10);
    keyboard.handle_keys().unwrap();
    check_output(&keyboard, &[&[KeyCode::X]]);
    keyboard.output.clear();
    assert!(keyboard.events.is_empty());

    //the modifier
    keyboard.add_keypress(KeyCode::X, 0);
    keyboard.handle_keys().unwrap();
    check_output(&keyboard, &[&[]]);
    keyboard.output.clear();
    keyboard.add_keypress(KeyCode::Z, threshold);
    keyboard.handle_keys().unwrap();
    check_output(&keyboard, &[&[KeyCode::H], &[KeyCode::Z]]);
    assert!(counter.down() == 1);
    assert!(counter.up() == 0);
    keyboard.output.clear();
    keyboard.add_keyrelease(KeyCode::Z, 0);
    keyboard.handle_keys().unwrap();
    keyboard.output.clear();
    keyboard.add_keyrelease(KeyCode::X, 10);
    keyboard.handle_keys().unwrap();
    check_output(&keyboard, &[&[KeyCode::I], &[]]);
    assert!(counter.down() == 1);
    assert!(counter.up() == 1);
    keyboard.output.clear();
}

#[test]
fn test_space_cadet_layer() {
    let mut keyboard = Keyboard::new(KeyOutCatcher::new());
    let l = premade::space_cadet_handler(KeyCode::X, KeyCode::U, keyboard.future_handler_id(2));
    let threshold = l.minimum_depress_ms;
    keyboard.add_handler(l);

    let numpad_id = keyboard.add_handler(Box::new(Layer::new(
        vec![
            (KeyCode::U, RT(KeyCode::Kb7.to_u32())),
            (KeyCode::I, RT(KeyCode::Kb8.to_u32())),
            (KeyCode::O, RT(KeyCode::Kb9.to_u32())),
            (KeyCode::J, RT(KeyCode::Kb4.to_u32())),
            (KeyCode::K, RT(KeyCode::Kb5.to_u32())),
            (KeyCode::L, RT(KeyCode::Kb6.to_u32())),
            (KeyCode::M, RT(KeyCode::Kb1.to_u32())),
            (KeyCode::Comma, RT(KeyCode::Kb2.to_u32())),
            (KeyCode::Dot, RT(KeyCode::Kb3.to_u32())),
            (KeyCode::Up, RT(KeyCode::Kb0.to_u32())),
            (KeyCode::Space, RT(KeyCode::Tab.to_u32())),
            (KeyCode::Down, RT(KeyCode::Dot.to_u32())),
            (KeyCode::LBracket, RT(KeyCode::Comma.to_u32())),
        ],
        AutoOff::No,
    )));
    keyboard.output.state().disable_handler(numpad_id);
    keyboard.add_handler(Box::new(USBKeyboard::new()));

    //the modifier
    keyboard.add_keypress(KeyCode::X, 0);
    keyboard.handle_keys().unwrap();
    check_output(&keyboard, &[&[]]);
    keyboard.output.clear();
    keyboard.add_keypress(KeyCode::U, threshold);
    keyboard.handle_keys().unwrap();
    assert!(keyboard.output.state().is_handler_enabled(numpad_id));
    check_output(&keyboard, &[&[KeyCode::Kb7]]);
    keyboard.output.clear();
    keyboard.add_keyrelease(KeyCode::X, 0);
    keyboard.handle_keys().unwrap();
    keyboard.output.clear();
    keyboard.add_keyrelease(KeyCode::U, 10);
    keyboard.handle_keys().unwrap();
    check_output(&keyboard, &[&[]]);
    assert!(!keyboard.output.state().is_handler_enabled(numpad_id));
    keyboard.output.clear();
}

#[test]
fn test_space_cadet_oneshot_interaction() {
    let counter = SharedCounter::new();
    let l = SpaceCadet::new(KeyCode::X, KeyCode::X, counter.clone());
    let mut k = Keyboard::new(KeyOutCatcher::new());
    k.add_handler(premade::one_shot_shift(400, 1000));
    k.add_handler(Box::new(l));
    k.add_handler(Box::new(USBKeyboard::new()));

    k.pc(KeyCode::RShift, &[&[KeyCode::LShift]]); // one shots always output the left key.
    k.rc(KeyCode::RShift, &[&[KeyCode::LShift]]); //shift stays pressed by the one shot.

    assert!(k.output.state().modifier(Modifier::Shift));
    k.pc(KeyCode::X, &[&[KeyCode::LShift]]);
    k.rc(KeyCode::X, &[&[KeyCode::LShift, KeyCode::X]]);
}
