//! The output of the handlers: the sequence of USB keyboard reports to send
//! to the host, plus the keyboard state that the handlers share.
//!
//! The firmware sends the recorded reports to the host and clears them.
use vstd::prelude::*;
use vstd::string::StringExecFns;
use crate::key_codes::{KeyCode, keycode_value, lemma_keycode_value_in_blocks, UNICODE_BELOW_256};
use crate::state::{KeyboardState, UnicodeSendMode};

verus! {

/// The byte a key code contributes to a USB report.
pub open spec fn usb_byte(k: KeyCode) -> u8 {
    (keycode_value(k) - UNICODE_BELOW_256) as u8
}

/// The report bytes of a list of key codes, in order.
pub open spec fn usb_bytes(keys: Seq<KeyCode>) -> Seq<u8> {
    keys.map_values(|k: KeyCode| usb_byte(k))
}

/// The hexadecimal digits of `n`, most significant first, without leading
/// zeros (`0` has the single digit 0) - the digits `char::escape_unicode` shows.
pub open spec fn hex_digits(n: nat) -> Seq<u8>
    decreases n,
{
    if n < 16 {
        seq![n as u8]
    } else {
        hex_digits(n / 16).push((n % 16) as u8)
    }
}

/// The number that hexadecimal digits (most significant first) stand for.
pub open spec fn hex_value(ds: Seq<u8>) -> nat
    decreases ds.len(),
{
    if ds.len() == 0 {
        0
    } else {
        hex_value(ds.drop_last()) * 16 + ds.last() as nat
    }
}

/// Law: the digits typed for a unicode character are its code point in
/// hexadecimal notation: every digit is below 16, there is no leading
/// zero, and together they stand for the code point.
pub proof fn law_hex_digits_denote(n: nat)
    ensures
        hex_digits(n).len() >= 1,
        hex_value(hex_digits(n)) == n,
        n > 0 ==> hex_digits(n)[0] != 0,
        forall|i: int| 0 <= i < hex_digits(n).len() ==> #[trigger] hex_digits(n)[i] < 16,
    decreases n,
{
    lemma_hex_digits_small(n);
    if n >= 16 {
        law_hex_digits_denote(n / 16);
        let prev = hex_digits(n / 16);
        assert(hex_digits(n).drop_last() =~= prev);
        assert(hex_digits(n)[0] == prev[0]);
        assert(hex_digits(n).last() == (n % 16) as u8);
        assert(hex_value(hex_digits(n)) == hex_value(prev) * 16 + (n % 16));
        assert(n == (n / 16) * 16 + n % 16) by {
            vstd::arithmetic::div_mod::lemma_fundamental_div_mod(n as int, 16);
        }
    } else {
        assert(hex_digits(n).drop_last() =~= Seq::<u8>::empty());
        assert(hex_value(hex_digits(n)) == hex_value(Seq::<u8>::empty()) * 16 + n);
    }
}

/// The lower case hexadecimal character of a digit below 16.
pub open spec fn hex_char(d: u8) -> char {
    if d < 10 {
        (('0' as u8) + d) as char
    } else {
        (('a' as u8) + (d - 10)) as char
    }
}

/// Law: the key typed for a hex digit is the key of that digit. Digits
/// 1 to 9 are the USB keys 0x1E to 0x26 in order and 0 is 0x27 (so digit d
/// is the key d - 1 places after Kb1); a to f (and A to F) are the letter
/// keys A to F, 0x04 to 0x09. On a dvorak host the digit keys stay the
/// same; in debug mode the digits come from the keypad, 1 to 9 being 0x59
/// to 0x61 and 0 being 0x62, and the letters stay the letter keys.
pub proof fn law_hex_digit_keys(d: u8)
    requires
        d < 16,
    ensures
        keycode_value(hex_char_keycode(hex_char(d))) == (if d == 0 {
            0x100027
        } else if d < 10 {
            0x10001e + d - 1
        } else {
            0x100004 + d - 10
        }),
        d < 10 ==> hex_char_keycode_dvorak(hex_char(d)) == hex_char_keycode(hex_char(d)),
        keycode_value(hex_char_keycode_debug(hex_char(d))) == (if d == 0 {
            0x100062
        } else if d < 10 {
            0x100059 + d - 1
        } else {
            0x100004 + d - 10
        }),
        d >= 10 ==> hex_char_keycode((('A' as u8) + (d - 10)) as char) == hex_char_keycode(
            hex_char(d),
        ),
{
    if d == 0 {
    } else if d == 1 {
    } else if d == 2 {
    } else if d == 3 {
    } else if d == 4 {
    } else if d == 5 {
    } else if d == 6 {
    } else if d == 7 {
    } else if d == 8 {
    } else if d == 9 {
    } else if d == 10 {
    } else if d == 11 {
    } else if d == 12 {
    } else if d == 13 {
    } else if d == 14 {
    } else {
    }
}

/// Whether `c` is a hexadecimal digit character.
pub open spec fn is_hex_char(c: char) -> bool {
    ('0' <= c && c <= '9') || ('a' <= c && c <= 'f') || ('A' <= c && c <= 'F')
}

/// The key that types the hexadecimal digit `c` on a qwerty host.
pub open spec fn hex_char_keycode(c: char) -> KeyCode {
    if c == '0' { KeyCode::Kb0 }
    else if c == '1' { KeyCode::Kb1 }
    else if c == '2' { KeyCode::Kb2 }
    else if c == '3' { KeyCode::Kb3 }
    else if c == '4' { KeyCode::Kb4 }
    else if c == '5' { KeyCode::Kb5 }
    else if c == '6' { KeyCode::Kb6 }
    else if c == '7' { KeyCode::Kb7 }
    else if c == '8' { KeyCode::Kb8 }
    else if c == '9' { KeyCode::Kb9 }
    else if c == 'A' || c == 'a' { KeyCode::A }
    else if c == 'B' || c == 'b' { KeyCode::B }
    else if c == 'C' || c == 'c' { KeyCode::C }
    else if c == 'D' || c == 'd' { KeyCode::D }
    else if c == 'E' || c == 'e' { KeyCode::E }
    else { KeyCode::F }
}

/// The key that types the hexadecimal digit `c` on a host with a dvorak layout.
pub open spec fn hex_char_keycode_dvorak(c: char) -> KeyCode {
    if c == 'B' || c == 'b' { KeyCode::N }
    else if c == 'C' || c == 'c' { KeyCode::I }
    else if c == 'D' || c == 'd' { KeyCode::H }
    else if c == 'E' || c == 'e' { KeyCode::D }
    else if c == 'F' || c == 'f' { KeyCode::Y }
    else { hex_char_keycode(c) }
}

/// The key that shows the hexadecimal digit `c` in debug mode: digits come
/// from the keypad, letters from the letter keys.
pub open spec fn hex_char_keycode_debug(c: char) -> KeyCode {
    if c == '0' { KeyCode::Kp0 }
    else if c == '1' { KeyCode::Kp1 }
    else if c == '2' { KeyCode::Kp2 }
    else if c == '3' { KeyCode::Kp3 }
    else if c == '4' { KeyCode::Kp4 }
    else if c == '5' { KeyCode::Kp5 }
    else if c == '6' { KeyCode::Kp6 }
    else if c == '7' { KeyCode::Kp7 }
    else if c == '8' { KeyCode::Kp8 }
    else if c == '9' { KeyCode::Kp9 }
    else { hex_char_keycode(c) }
}

/// Transform a hex digit to the USB key code that types it.
pub fn hex_digit_to_keycode(digit: char) -> (r: KeyCode)
    requires
        is_hex_char(digit),
    ensures
        r == hex_char_keycode(digit),
{
    match digit {
        '0' => KeyCode::Kb0,
        '1' => KeyCode::Kb1,
        '2' => KeyCode::Kb2,
        '3' => KeyCode::Kb3,
        '4' => KeyCode::Kb4,
        '5' => KeyCode::Kb5,
        '6' => KeyCode::Kb6,
        '7' => KeyCode::Kb7,
        '8' => KeyCode::Kb8,
        '9' => KeyCode::Kb9,
        'A' | 'a' => KeyCode::A,
        'B' | 'b' => KeyCode::B,
        'C' | 'c' => KeyCode::C,
        'D' | 'd' => KeyCode::D,
        'E' | 'e' => KeyCode::E,
        _ => KeyCode::F,
    }
}

/// Transform a hex digit to the USB key code that types it on a dvorak host.
pub fn hex_digit_to_keycode_dvorak(digit: char) -> (r: KeyCode)
    requires
        is_hex_char(digit),
    ensures
        r == hex_char_keycode_dvorak(digit),
{
    match digit {
        '0' => KeyCode::Kb0,
        '1' => KeyCode::Kb1,
        '2' => KeyCode::Kb2,
        '3' => KeyCode::Kb3,
        '4' => KeyCode::Kb4,
        '5' => KeyCode::Kb5,
        '6' => KeyCode::Kb6,
        '7' => KeyCode::Kb7,
        '8' => KeyCode::Kb8,
        '9' => KeyCode::Kb9,
        'A' | 'a' => KeyCode::A,
        'B' | 'b' => KeyCode::N,
        'C' | 'c' => KeyCode::I,
        'D' | 'd' => KeyCode::H,
        'E' | 'e' => KeyCode::D,
        _ => KeyCode::Y,
    }
}

/// Transform a hex digit to the key that shows it in debug mode.
fn hex_digit_to_keycode_debug(digit: char) -> (r: KeyCode)
    requires
        is_hex_char(digit),
    ensures
        r == hex_char_keycode_debug(digit),
{
    match digit {
        '0' => KeyCode::Kp0,
        '1' => KeyCode::Kp1,
        '2' => KeyCode::Kp2,
        '3' => KeyCode::Kp3,
        '4' => KeyCode::Kp4,
        '5' => KeyCode::Kp5,
        '6' => KeyCode::Kp6,
        '7' => KeyCode::Kp7,
        '8' => KeyCode::Kp8,
        '9' => KeyCode::Kp9,
        _ => hex_digit_to_keycode(digit),
    }
}

/// The lower case hexadecimal character of a digit.
fn digit_char(d: u8) -> (r: char)
    requires
        d < 16,
    ensures
        r == hex_char(d),
        is_hex_char(r),
{
    if d < 10 {
        (('0' as u8) + d) as char
    } else {
        (('a' as u8) + (d - 10)) as char
    }
}

/// Appends the hexadecimal digits of `n` to `out`.
fn push_hex_digits(n: u32, out: &mut Vec<u8>)
    ensures
        final(out)@ == old(out)@ + hex_digits(n as nat),
    decreases n,
{
    if n >= 16 {
        push_hex_digits(n / 16, out);
    }
    out.push((n % 16) as u8);
}

/// Every hexadecimal digit is below 16.
proof fn lemma_hex_digits_small(n: nat)
    ensures
        forall|i: int| 0 <= i < hex_digits(n).len() ==> #[trigger] hex_digits(n)[i] < 16,
    decreases n,
{
    if n >= 16 {
        lemma_hex_digits_small(n / 16);
        let prev = hex_digits(n / 16);
        assert(hex_digits(n) == prev.push((n % 16) as u8));
        assert forall|i: int| 0 <= i < hex_digits(n).len() implies #[trigger] hex_digits(n)[i] < 16 by {
            if i < prev.len() {
                assert(hex_digits(n)[i] == prev[i]);
            }
        }
    }
}

/// The report that one hex digit produces while a unicode character is typed.
pub open spec fn digit_reports(mode: UnicodeSendMode, d: u8) -> Seq<Seq<u8>> {
    let c = hex_char(d);
    match mode {
        UnicodeSendMode::Linux => seq![
            usb_bytes(seq![KeyCode::LCtrl, KeyCode::LShift, hex_char_keycode(c)]),
        ],
        UnicodeSendMode::LinuxDvorak => seq![
            usb_bytes(seq![hex_char_keycode_dvorak(c)]),
            Seq::<u8>::empty(),
        ],
        UnicodeSendMode::WinCompose => seq![usb_bytes(seq![hex_char_keycode(c)])],
        UnicodeSendMode::WinComposeDvorak => seq![usb_bytes(seq![hex_char_keycode_dvorak(c)])],
        UnicodeSendMode::Debug => seq![usb_bytes(seq![hex_char_keycode_debug(c)])],
    }
}

/// The reports of a sequence of hex digits, in order.
pub open spec fn digits_reports(mode: UnicodeSendMode, ds: Seq<u8>) -> Seq<Seq<u8>>
    decreases ds.len(),
{
    if ds.len() == 0 {
        Seq::empty()
    } else {
        digits_reports(mode, ds.drop_last()) + digit_reports(mode, ds.last())
    }
}

/// `n` copies of the pair of reports: LCtrl pressed, nothing pressed.
pub open spec fn ctrl_taps(n: nat) -> Seq<Seq<u8>>
    decreases n,
{
    if n == 0 {
        Seq::empty()
    } else {
        ctrl_taps((n - 1) as nat) + seq![usb_bytes(seq![KeyCode::LCtrl]), Seq::<u8>::empty()]
    }
}

/// The reports that type the unicode character `c` in the given mode.
pub open spec fn unicode_reports(mode: UnicodeSendMode, c: char) -> Seq<Seq<u8>> {
    let digits = digits_reports(mode, hex_digits(c as nat));
    let enter_then_release = seq![usb_bytes(seq![KeyCode::Enter]), Seq::<u8>::empty()];
    match mode {
        UnicodeSendMode::Linux => seq![usb_bytes(seq![KeyCode::LCtrl, KeyCode::LShift, KeyCode::U])]
            + digits + seq![Seq::<u8>::empty()],
        UnicodeSendMode::LinuxDvorak => seq![
            usb_bytes(seq![KeyCode::LCtrl, KeyCode::LShift, KeyCode::F]),
            Seq::<u8>::empty(),
        ] + ctrl_taps(10) + digits + enter_then_release,
        UnicodeSendMode::WinCompose => seq![
            usb_bytes(seq![KeyCode::RAlt]),
            usb_bytes(seq![KeyCode::U]),
        ] + digits + enter_then_release,
        UnicodeSendMode::WinComposeDvorak => seq![
            usb_bytes(seq![KeyCode::RAlt]),
            usb_bytes(seq![KeyCode::F]),
        ] + digits + enter_then_release,
        UnicodeSendMode::Debug => digits,
    }
}

/// The reports that type every character of `s` in turn.
pub open spec fn string_reports(mode: UnicodeSendMode, s: Seq<char>) -> Seq<Seq<u8>>
    decreases s.len(),
{
    if s.len() == 0 {
        Seq::empty()
    } else {
        string_reports(mode, s.drop_last()) + unicode_reports(mode, s.last())
    }
}

/// What can be observed of the output: the reports sent so far, the keys
/// registered for the next report, the keyboard state (its bits, its
/// unicode mode and its one shot triggers), and the debug messages.
pub ghost struct OutView {
    pub reports: Seq<Seq<u8>>,
    pub registered: Seq<u8>,
    pub flags: Seq<bool>,
    pub mode: UnicodeSendMode,
    pub triggers: Seq<u32>,
    /// the debug messages written so far
    pub debug: Seq<Seq<char>>,
}

/// Records the reports the handlers produce, and holds the keyboard state.
pub struct KeyOutCatcher {
    keys_registered: Vec<u8>,
    pub reports: Vec<Vec<u8>>,
    state: KeyboardState,
    /// debug messages of the handlers, oldest first
    pub debug_messages: Vec<String>,
}

impl View for KeyOutCatcher {
    type V = OutView;

    open spec fn view(&self) -> OutView {
        OutView {
            reports: self.report_log(),
            registered: self.registered(),
            flags: self.kb().flags(),
            mode: self.kb().mode(),
            triggers: self.kb().oneshot_triggers(),
            debug: self.debug_log(),
        }
    }
}

impl KeyOutCatcher {
    /// The reports produced so far, oldest first.
    pub closed spec fn report_log(self) -> Seq<Seq<u8>> {
        self.reports@.map_values(|r: Vec<u8>| r@)
    }

    /// The keys registered for the next `send_registered`, in registration order.
    pub closed spec fn registered(self) -> Seq<u8> {
        self.keys_registered@
    }

    /// The keyboard state.
    pub closed spec fn kb(self) -> KeyboardState {
        self.state
    }

    /// The debug messages written so far, oldest first.
    pub closed spec fn debug_log(self) -> Seq<Seq<char>> {
        self.debug_messages@.map_values(|m: String| m@)
    }

    pub fn new() -> (r: KeyOutCatcher)
        ensures
            r.report_log() == Seq::<Seq<u8>>::empty(),
            r.registered() == Seq::<u8>::empty(),
            r.kb().mode() == UnicodeSendMode::Linux,
            r.kb().flags() == Seq::new(5, |i: int| false),
            r.kb().oneshot_triggers() == Seq::<u32>::empty(),
            r.debug_log() == Seq::<Seq<char>>::empty(),
    {
        let r = KeyOutCatcher {
            keys_registered: Vec::new(),
            reports: Vec::new(),
            state: KeyboardState::new(),
            debug_messages: Vec::new(),
        };
        assert(r.debug_log() =~= Seq::<Seq<char>>::empty());
        r
    }

    /// Write a debug message: it is recorded, and nothing else changes.
    pub fn debug(&mut self, s: &str)
        ensures
            final(self)@ == (OutView { debug: old(self)@.debug.push(s@), ..old(self)@ }),
            final(self).kb() == old(self).kb(),
            final(self).debug_log() == old(self).debug_log().push(s@),
    {
        self.debug_messages.push(String::from_str(s));
        assert(self.debug_log() =~= old(self).debug_log().push(s@));
    }

    /// Forget all reports and registered keys; the state stays.
    pub fn clear(&mut self)
        ensures
            final(self).report_log() == Seq::<Seq<u8>>::empty(),
            final(self).registered() == Seq::<u8>::empty(),
            final(self).kb() == old(self).kb(),
            final(self).debug_log() == old(self).debug_log(),
    {
        self.keys_registered.clear();
        self.reports.clear();
        assert(self.report_log() =~= Seq::<Seq<u8>>::empty());
    }

    /// The keyboard state, for changing it.
    pub fn state(&mut self) -> (r: &mut KeyboardState)
        ensures
            *r == old(self).kb(),
            final(self).kb() == *final(r),
            final(self).report_log() == old(self).report_log(),
            final(self).registered() == old(self).registered(),
            final(self).debug_log() == old(self).debug_log(),
    {
        &mut self.state
    }

    /// The keyboard state, for reading it.
    pub fn ro_state(&self) -> (r: &KeyboardState)
        ensures
            *r == self.kb(),
    {
        &self.state
    }

    /// Send these keys as one report right away.
    pub fn send_keys(&mut self, keys: &[KeyCode])
        ensures
            final(self).debug_log() == old(self).debug_log(),
            final(self).report_log() == old(self).report_log().push(usb_bytes(keys@)),
            final(self).registered() == old(self).registered(),
            final(self).kb() == old(self).kb(),
    {
        let mut report: Vec<u8> = Vec::new();
        let mut i: usize = 0;
        while i < keys.len()
            invariant
                i <= keys@.len(),
                report@ == usb_bytes(keys@.subrange(0, i as int)),
            decreases keys@.len() - i,
        {
            proof {
                lemma_keycode_value_in_blocks(keys@[i as int]);
            }
            report.push(keys[i].to_u8());
            assert(usb_bytes(keys@.subrange(0, i + 1)) =~= usb_bytes(keys@.subrange(0, i as int)).push(
                usb_byte(keys@[i as int]),
            ));
            i += 1;
        }
        assert(keys@.subrange(0, keys@.len() as int) =~= keys@);
        self.reports.push(report);
        assert(self.report_log() =~= old(self).report_log().push(usb_bytes(keys@)));
    }

    /// Register this key to be sent with the next `send_registered`
    /// (a key is registered once).
    pub fn register_key(&mut self, key: KeyCode)
        ensures
            final(self).debug_log() == old(self).debug_log(),
            final(self).registered() == (if old(self).registered().contains(usb_byte(key)) {
                old(self).registered()
            } else {
                old(self).registered().push(usb_byte(key))
            }),
            final(self).report_log() == old(self).report_log(),
            final(self).kb() == old(self).kb(),
    {
        proof {
            lemma_keycode_value_in_blocks(key);
        }
        let code = key.to_u8();
        let mut i: usize = 0;
        while i < self.keys_registered.len()
            invariant
                i <= self.keys_registered@.len(),
                self.keys_registered@ == old(self).keys_registered@,
                code == usb_byte(key),
                forall|j: int| 0 <= j < i ==> self.keys_registered@[j] != code,
            decreases self.keys_registered@.len() - i,
        {
            if self.keys_registered[i] == code {
                assert(old(self).registered()[i as int] == usb_byte(key));
                return;
            }
            i += 1;
        }
        self.keys_registered.push(code);
    }

    /// Send the registered keys as one report (possibly an empty one) and
    /// forget them.
    pub fn send_registered(&mut self)
        ensures
            final(self).debug_log() == old(self).debug_log(),
            final(self).report_log() == old(self).report_log().push(old(self).registered()),
            final(self).registered() == Seq::<u8>::empty(),
            final(self).kb() == old(self).kb(),
    {
        let report = self.keys_registered.clone();
        self.reports.push(report);
        self.keys_registered.clear();
        assert(self.report_log() =~= old(self).report_log().push(old(self).registered()));
    }

    /// Send a report with no key pressed.
    pub fn send_empty(&mut self)
        ensures
            final(self).debug_log() == old(self).debug_log(),
            final(self).report_log() == old(self).report_log().push(Seq::<u8>::empty()),
            final(self).registered() == old(self).registered(),
            final(self).kb() == old(self).kb(),
    {
        self.reports.push(Vec::new());
        assert(self.report_log() =~= old(self).report_log().push(Seq::<u8>::empty()));
    }

    /// Sends the reports of every hex digit of `digits`.
    fn send_digits(&mut self, digits: &Vec<u8>, mode: UnicodeSendMode)
        requires
            forall|i: int| 0 <= i < digits@.len() ==> #[trigger] digits@[i] < 16,
        ensures
            final(self).debug_log() == old(self).debug_log(),
            final(self).report_log() == old(self).report_log() + digits_reports(mode, digits@),
            final(self).registered() == old(self).registered(),
            final(self).kb() == old(self).kb(),
    {
        let mut i: usize = 0;
        while i < digits.len()
            invariant
                i <= digits@.len(),
                forall|j: int| 0 <= j < digits@.len() ==> #[trigger] digits@[j] < 16,
                self.report_log() == old(self).report_log() + digits_reports(
                    mode,
                    digits@.subrange(0, i as int),
                ),
                self.registered() == old(self).registered(),
                self.debug_log() == old(self).debug_log(),
                self.kb() == old(self).kb(),
            decreases digits@.len() - i,
        {
            let c = digit_char(digits[i]);
            let ghost log0 = self.report_log();
            match mode {
                UnicodeSendMode::Linux => {
                    self.send_keys(&[KeyCode::LCtrl, KeyCode::LShift, hex_digit_to_keycode(c)]);
                },
                UnicodeSendMode::LinuxDvorak => {
                    self.send_keys(&[hex_digit_to_keycode_dvorak(c)]);
                    self.send_empty();
                },
                UnicodeSendMode::WinCompose => {
                    self.send_keys(&[hex_digit_to_keycode(c)]);
                },
                UnicodeSendMode::Debug => {
                    self.send_keys(&[hex_digit_to_keycode_debug(c)]);
                },
                UnicodeSendMode::WinComposeDvorak => {
                    self.send_keys(&[hex_digit_to_keycode_dvorak(c)]);
                },
            }
            let ghost prefix = digits@.subrange(0, i as int);
            assert(self.report_log() =~~= log0 + digit_reports(mode, digits@[i as int]));
            assert(digits@.subrange(0, i + 1).drop_last() =~= prefix);
            assert(digits@.subrange(0, i + 1).last() == digits@[i as int]);
            assert(digits_reports(mode, digits@.subrange(0, i + 1)) == digits_reports(mode, prefix)
                + digit_reports(mode, digits@[i as int]));
            assert(self.report_log() =~= old(self).report_log() + digits_reports(
                mode,
                digits@.subrange(0, i + 1),
            ));
            i += 1;
        }
        assert(digits@.subrange(0, digits@.len() as int) =~= digits@);
    }

    /// Sends ten LCtrl taps (the dvorak Linux input method needs them).
    fn send_ctrl_taps(&mut self)
        ensures
            final(self).debug_log() == old(self).debug_log(),
            final(self).report_log() == old(self).report_log() + ctrl_taps(10),
            final(self).registered() == old(self).registered(),
            final(self).kb() == old(self).kb(),
    {
        let mut i: usize = 0;
        while i < 10
            invariant
                i <= 10,
                self.report_log() == old(self).report_log() + ctrl_taps(i as nat),
                self.registered() == old(self).registered(),
                self.debug_log() == old(self).debug_log(),
                self.kb() == old(self).kb(),
            decreases 10 - i,
        {
            //must be alternating
            self.send_keys(&[KeyCode::LCtrl]);
            self.send_empty();
            assert(ctrl_taps((i + 1) as nat) == ctrl_taps(i as nat) + seq![
                usb_bytes(seq![KeyCode::LCtrl]),
                Seq::<u8>::empty(),
            ]);
            assert(self.report_log() =~~= old(self).report_log() + ctrl_taps((i + 1) as nat));
            i += 1;
        }
    }

    /// Type the unicode character `c` on the host, in the way the host
    /// expects according to the state's unicode mode.
    pub fn send_unicode(&mut self, c: char)
        ensures
            final(self).debug_log() == old(self).debug_log(),
            final(self).report_log() == old(self).report_log() + unicode_reports(
                old(self).kb().mode(),
                c,
            ),
            final(self).registered() == old(self).registered(),
            final(self).kb() == old(self).kb(),
    {
        let mut digits: Vec<u8> = Vec::new();
        push_hex_digits(c as u32, &mut digits);
        proof {
            lemma_hex_digits_small(c as nat);
            assert(digits@ =~= hex_digits(c as nat));
        }
        let ghost ds = digits_reports(old(self).kb().mode(), hex_digits(c as nat));
        let ghost log0 = old(self).report_log();
        let mode = self.state.unicode_mode();
        match mode {
            UnicodeSendMode::Linux => {
                self.send_keys(&[KeyCode::LCtrl, KeyCode::LShift, KeyCode::U]);
                self.send_digits(&digits, mode);
                self.send_empty();
                assert(self.report_log() =~~= log0 + unicode_reports(mode, c));
            },
            UnicodeSendMode::LinuxDvorak => {
                self.send_keys(&[KeyCode::LCtrl, KeyCode::LShift, KeyCode::F]);
                self.send_empty();
                self.send_ctrl_taps();
                self.send_digits(&digits, mode);
                self.send_keys(&[KeyCode::Enter]);
                self.send_empty();
                assert(self.report_log() =~~= log0 + unicode_reports(mode, c));
            },
            UnicodeSendMode::WinCompose => {
                self.send_keys(&[KeyCode::RAlt]);
                self.send_keys(&[KeyCode::U]);
                self.send_digits(&digits, mode);
                self.send_keys(&[KeyCode::Enter]);
                self.send_empty();
                assert(self.report_log() =~~= log0 + unicode_reports(mode, c));
            },
            UnicodeSendMode::WinComposeDvorak => {
                self.send_keys(&[KeyCode::RAlt]);
                self.send_keys(&[KeyCode::F]);
                self.send_digits(&digits, mode);
                self.send_keys(&[KeyCode::Enter]);
                self.send_empty();
                assert(self.report_log() =~~= log0 + unicode_reports(mode, c));
            },
            UnicodeSendMode::Debug => {
                self.send_digits(&digits, mode);
                assert(self.report_log() =~~= log0 + unicode_reports(mode, c));
            },
        }
    }

    /// Send a string to the host; every character is typed as unicode input.
    pub fn send_string(&mut self, s: &str)
        ensures
            final(self).debug_log() == old(self).debug_log(),
            final(self).report_log() == old(self).report_log() + string_reports(
                old(self).kb().mode(),
                s@,
            ),
            final(self).registered() == old(self).registered(),
            final(self).kb() == old(self).kb(),
    {
        let n = s.unicode_len();
        let mut i: usize = 0;
        while i < n
            invariant
                n == s@.len(),
                i <= n,
                self.report_log() == old(self).report_log() + string_reports(
                    old(self).kb().mode(),
                    s@.subrange(0, i as int),
                ),
                self.registered() == old(self).registered(),
                self.debug_log() == old(self).debug_log(),
                self.kb() == old(self).kb(),
            decreases n - i,
        {
            let c = s.get_char(i);
            self.send_unicode(c);
            assert(s@.subrange(0, i + 1).drop_last() =~= s@.subrange(0, i as int));
            i += 1;
        }
        assert(s@.subrange(0, n as int) =~= s@);
    }
}


/// Law: sending a string in two parts types the same as sending it at once.
pub proof fn law_string_reports_concat(mode: UnicodeSendMode, s: Seq<char>, t: Seq<char>)
    ensures
        string_reports(mode, s + t) == string_reports(mode, s) + string_reports(mode, t),
    decreases t.len(),
{
    if t.len() == 0 {
        assert(s + t =~= s);
        assert(string_reports(mode, s) + string_reports(mode, t) =~= string_reports(mode, s));
    } else {
        law_string_reports_concat(mode, s, t.drop_last());
        assert((s + t).drop_last() =~= s + t.drop_last());
        assert((s + t).last() == t.last());
        assert(string_reports(mode, s + t) =~= string_reports(mode, s) + string_reports(mode, t));
    }
}

} // verus!
