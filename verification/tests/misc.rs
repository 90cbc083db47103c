use keytokey::handlers::debug_handlers::{debug_stream_lines, transform_u32_to_keycodes};
use keytokey::{Event, EventStatus, Key};
use keytokey::KeyCode::{A, F, Kb0, Kb1, Kb2};
use keytokey::handlers::USBKeyboard;
use keytokey::matrix::MatrixToStream;
use keytokey::output::hex_digit_to_keycode;
use keytokey::test_helpers::{Debugger, TimeoutLogger};
use keytokey::{KeyCode, KeyOutCatcher, Keyboard};
use smallbitvec::SmallBitVec;

fn check_output(keyboard: &Keyboard, should: &[&[KeyCode]]) {
    let reports = &keyboard.output.reports;
    assert_eq!(should.len(), reports.len(), "reports: {:?}", reports);
    for (ii, report) in should.iter().enumerate() {
        assert_eq!(reports[ii].len(), report.len(), "reports: {:?}", reports);
        for k in report.iter() {
            assert!(reports[ii].contains(&k.to_u8()), "reports: {:?}", reports);
        }
    }
}

#[test]
fn test_hexdigit_to_keycode() {
    for c in "ABCDEFHIJKLMOJPQRSTUVWYXYZabcdefghijklmnopqrstuvwxyz".chars() {
        let escaped = c.escape_unicode();
        for out_c in escaped.skip(3).take_while(|x| *x != '}') {
            println!("{} {:?}", out_c, hex_digit_to_keycode(out_c));
        }
    }
}

#[test]
fn test_matrix_to_stream() {
    let trans = [KeyCode::A.to_u32(), KeyCode::Z.to_u32()];
    let mut matrix = MatrixToStream::new(2, &trans);
    let mut state = SmallBitVec::from_elem(2, false);
    let mut keyboard = Keyboard::new(KeyOutCatcher::new());
    keyboard.add_handler(Box::new(USBKeyboard::new()));
    keyboard.add_handler(Box::new(TimeoutLogger::new(KeyCode::X, 100)));
    state.set(0, true);
    matrix.update(&state, &mut keyboard, 120);
    check_output(&keyboard, &[&[KeyCode::A]]);
    matrix.update(&state, &mut keyboard, 240);
    check_output(&keyboard, &[&[KeyCode::A], &[KeyCode::A], &[KeyCode::X]]);
    state.set(0, false);
    matrix.update(&state, &mut keyboard, 240);
    check_output(&keyboard, &[&[KeyCode::A], &[KeyCode::A], &[KeyCode::X], &[]]);
    matrix.update(&state, &mut keyboard, 240);
    check_output(
        &keyboard,
        &[&[KeyCode::A], &[KeyCode::A], &[KeyCode::X], &[], &[], &[KeyCode::X]],
    );
    matrix.update(&state, &mut keyboard, 50);
    check_output(
        &keyboard,
        &[&[KeyCode::A], &[KeyCode::A], &[KeyCode::X], &[], &[], &[KeyCode::X], &[]],
    );
}

#[test]
fn test_transform_u32_to_keycodes() {
    assert!(transform_u32_to_keycodes(0) == [Kb0; 8]);
    assert!(transform_u32_to_keycodes(1) == [Kb0, Kb0, Kb0, Kb0, Kb0, Kb0, Kb0, Kb1]);
    assert!(transform_u32_to_keycodes(10) == [Kb0, Kb0, Kb0, Kb0, Kb0, Kb0, Kb0, A]);
    assert!(transform_u32_to_keycodes(16) == [Kb0, Kb0, Kb0, Kb0, Kb0, Kb0, Kb1, Kb0]);
    assert!(transform_u32_to_keycodes(255) == [Kb0, Kb0, Kb0, Kb0, Kb0, Kb0, F, F]);
    assert!(transform_u32_to_keycodes(256 + 0xA2) == [Kb0, Kb0, Kb0, Kb0, Kb0, Kb1, A, Kb2]);
}

#[test]
fn test_debug_stream_lines() {
    assert!(debug_stream_lines(&Vec::new()).is_empty());
    assert_eq!(
        debug_stream_lines(&vec![(Event::TimeOut(5), EventStatus::Unhandled)]),
        vec!["[\n".to_string()]
    );
    let mut k = Key::new(0x100004);
    k.ms_since_last = 250;
    k.running_number = 7;
    k.flag = 3;
    let events = vec![
        (Event::KeyPress(k), EventStatus::Unhandled),
        (Event::TimeOut(5), EventStatus::Handled),
        (Event::KeyRelease(Key::new(65)), EventStatus::Ignored),
    ];
    let lines = debug_stream_lines(&events);
    assert_eq!(
        lines,
        vec![
            "[\n".to_string(),
            "\t(Event::KeyPress(Key::new(1048580, 250, 7, 3)".to_string(),
            "EventStatus::Unhandled),".to_string(),
            "\t(Event::KeyRelease(Key::new(65, 0, 0, 0)".to_string(),
            "EventStatus::Ignored),".to_string(),
        ]
    );
}

#[test]
fn test_debugger_writes_debug_messages() {
    let mut keyboard = Keyboard::new(KeyOutCatcher::new());
    keyboard.add_handler(Box::new(Debugger::new("here")));
    keyboard.add_handler(Box::new(USBKeyboard::new()));
    keyboard.add_keypress(A, 0);
    keyboard.handle_keys().unwrap();
    assert_eq!(
        keyboard.output.debug_messages,
        vec![
            "here".to_string(),
            "[\n".to_string(),
            "\t(Event::KeyPress(Key::new(1048580, 0, 0, 0)".to_string(),
            "EventStatus::Unhandled),".to_string(),
        ]
    );
    check_output(&keyboard, &[&[A]]);
}
