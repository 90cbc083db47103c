use keytokey::handlers::{Leader, MatchResult, USBKeyboard};
use keytokey::KeyCode::{A, B, C, D, F, X};
use keytokey::{KeyCode, KeyOutCatcher, Keyboard, UnicodeSendMode};

fn check_output(keyboard: &Keyboard, should: &[&[KeyCode]]) {
    let reports = &keyboard.output.reports;
    assert_eq!(should.len(), reports.len(), "reports: {:?}", reports);
    for (ii, report) in should.iter().enumerate() {
        assert_eq!(reports[ii].len(), report.len(), "reports: {:?}", reports);
        for k in report.iter() {
            assert!(reports[ii].contains(&k.to_u8()), "reports: {:?}", reports);
        }
    }
}

fn tap(keyboard: &mut Keyboard, key: KeyCode, should: &[&[KeyCode]]) {
    keyboard.add_keypress(key, 0);
    keyboard.add_keyrelease(key, 0);
    keyboard.handle_keys().unwrap();
    check_output(keyboard, should);
    keyboard.output.clear();
}

#[test]
fn test_leader_matches_and_sends() {
    let mut l = Leader::new(X, vec![(vec![A, B, C], "A"), (vec![A, B, D], "B")], "E");
    assert!(l.match_prefix() == MatchResult::NeedsMoreInput);
    l.prefix.push(A.to_u32());
    assert!(l.match_prefix() == MatchResult::NeedsMoreInput);
    l.prefix.push(B.to_u32());
    assert!(l.match_prefix() == MatchResult::NeedsMoreInput);
    l.prefix.push(C.to_u32());
    assert!(l.match_prefix() == MatchResult::Match("A"));
    l.prefix.clear();
    l.prefix.push(C.to_u32());
    assert!(l.match_prefix() == MatchResult::WontMatch);
    l.prefix.clear();

    let mut keyboard = Keyboard::new(KeyOutCatcher::new());
    keyboard.add_handler(Box::new(l));
    keyboard.add_handler(Box::new(USBKeyboard::new()));
    keyboard.output.state().unicode_mode = UnicodeSendMode::Debug;
    //activate
    tap(&mut keyboard, X, &[&[]]);
    tap(&mut keyboard, A, &[&[]]);
    tap(&mut keyboard, B, &[&[]]);
    // "A" is U+0041
    tap(&mut keyboard, C, &[&[KeyCode::Kp4], &[KeyCode::Kp1], &[]]);
    // inactive again: keys pass
    keyboard.add_keypress(F, 0);
    keyboard.handle_keys().unwrap();
    check_output(&keyboard, &[&[F]]);
    keyboard.output.clear();
    keyboard.add_keyrelease(F, 0);
    keyboard.handle_keys().unwrap();
    check_output(&keyboard, &[&[]]);
    keyboard.output.clear();
    //a sequence no mapping starts with sends the failure string, "E" (U+0045)
    tap(&mut keyboard, X, &[&[]]);
    tap(&mut keyboard, C, &[&[KeyCode::Kp4], &[KeyCode::Kp5], &[]]);
}
