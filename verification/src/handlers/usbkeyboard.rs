//! The default bottom layer: a bog standard USB keyboard.
use vstd::prelude::*;
use crate::handlers::{Call, CallResult, lemma_prepend_call};
use crate::handlers::{HandlerResult, ProcessKeys, contains_code};
use crate::key_codes::{
    KeyCode, KeyCodeInfo, is_usb_code, is_keycode_value, keycode_value, UNICODE_BELOW_256,
};
use crate::key_stream::{Event, EventStatus, Key};
use crate::output::{KeyOutCatcher, OutView, usb_byte};
use crate::state::{Modifier, bit_contents, sbv_from_elem, sbv_get, sbv_set};

verus! {

/// The modifier a key code stands for (left or right variant).
pub open spec fn modifier_of(code: u32) -> Option<Modifier> {
    if code == keycode_value(KeyCode::LShift) || code == keycode_value(KeyCode::RShift) {
        Some(Modifier::Shift)
    } else if code == keycode_value(KeyCode::LAlt) || code == keycode_value(KeyCode::RAlt) {
        Some(Modifier::Alt)
    } else if code == keycode_value(KeyCode::LCtrl) || code == keycode_value(KeyCode::RCtrl) {
        Some(Modifier::Ctrl)
    } else if code == keycode_value(KeyCode::LGui) || code == keycode_value(KeyCode::RGui) {
        Some(Modifier::Gui)
    } else {
        None
    }
}

/// `reg` after registering `b`: keys are registered once.
pub open spec fn register(reg: Seq<u8>, b: u8) -> Seq<u8> {
    if reg.contains(b) {
        reg
    } else {
        reg.push(b)
    }
}

/// `codes` with `c` added unless it is there already.
pub open spec fn add_unique(codes: Seq<u32>, c: u32) -> Seq<u32> {
    if codes.contains(c) {
        codes
    } else {
        codes.push(c)
    }
}

/// What USBKeyboard has learned while scanning the events from the newest
/// to the oldest.
pub ghost struct UsbScan {
    /// the original key codes of the USB key releases: earlier presses of
    /// the same physical key are done, whatever a layer made of them
    pub deleted_orig: Seq<u32>,
    /// modifiers whose key is pressed in this batch, by modifier bit
    pub sent: Seq<bool>,
    /// the keyboard state bits
    pub flags: Seq<bool>,
    /// the keys registered for the report
    pub registered: Seq<u8>,
}

/// What USBKeyboard starts its scan with: nothing released yet, no
/// modifier pressed, the state bits and the keys registered so far.
pub open spec fn usb_start(flags: Seq<bool>, registered: Seq<u8>) -> UsbScan {
    UsbScan {
        deleted_orig: Seq::empty(),
        sent: seq![false, false, false, false],
        flags: flags,
        registered: registered,
    }
}

/// USBKeyboard's treatment of one event.
pub open spec fn usb_step(s: UsbScan, entry: (Event, EventStatus)) -> (UsbScan, (Event, EventStatus)) {
    if entry.1 != EventStatus::Unhandled {
        (s, entry)
    } else {
        match entry.0 {
            Event::KeyRelease(kc) => {
                let code = kc.keycode;
                let s1 = if is_usb_code(code) {
                    UsbScan { deleted_orig: add_unique(s.deleted_orig, kc.original_keycode), ..s }
                } else {
                    s
                };
                let status = if is_usb_code(code) {
                    EventStatus::Handled
                } else {
                    entry.1
                };
                let s2 = match modifier_of(code) {
                    Some(m) => UsbScan { flags: s1.flags.update(m.bit(), false), ..s1 },
                    None => s1,
                };
                (s2, (entry.0, status))
            },
            Event::KeyPress(kc) => {
                let code = kc.keycode;
                let done = is_usb_code(code) && s.deleted_orig.contains(kc.original_keycode);
                let send = !done || kc.flag & 1 == 0;
                let status1 = if done {
                    EventStatus::Handled
                } else {
                    entry.1
                };
                let s1 = if done {
                    s
                } else {
                    match modifier_of(code) {
                        Some(m) => UsbScan {
                            flags: s.flags.update(m.bit(), true),
                            sent: s.sent.update(m.bit(), true),
                            ..s
                        },
                        None => s,
                    }
                };
                if is_usb_code(code) {
                    let byte = (code - UNICODE_BELOW_256) as u8;
                    let kc2 = Key { flag: kc.flag | 1, ..kc };
                    if is_keycode_value(code) {
                        let s2 = if send {
                            UsbScan { registered: register(s1.registered, byte), ..s1 }
                        } else {
                            s1
                        };
                        let status2 = if status1 != EventStatus::Handled {
                            EventStatus::Ignored
                        } else {
                            status1
                        };
                        (s2, (Event::KeyPress(kc2), status2))
                    } else {
                        (s1, (Event::KeyPress(kc2), EventStatus::Handled))
                    }
                } else {
                    (s1, (entry.0, status1))
                }
            },
            Event::TimeOut(_) => (s, entry),
        }
    }
}

/// USBKeyboard's scan of all events, from the newest to the oldest.
pub open spec fn usb_scan(s: UsbScan, events: Seq<(Event, EventStatus)>) -> (
    UsbScan,
    Seq<(Event, EventStatus)>,
)
    decreases events.len(),
{
    if events.len() == 0 {
        (s, events)
    } else {
        let (s1, rest) = usb_scan(s, events.subrange(1, events.len() as int));
        let (s2, first) = usb_step(s1, events[0]);
        (s2, seq![first] + rest)
    }
}

/// The left key of a modifier.
pub open spec fn left_key(m: Modifier) -> KeyCode {
    match m {
        Modifier::Shift => KeyCode::LShift,
        Modifier::Ctrl => KeyCode::LCtrl,
        Modifier::Alt => KeyCode::LAlt,
        Modifier::Gui => KeyCode::LGui,
    }
}

/// Registers the left key of `m` if it is set but was not pressed in this batch.
pub open spec fn register_held(s: UsbScan, m: Modifier) -> Seq<u8> {
    if s.flags[m.bit()] && !s.sent[m.bit()] {
        register(s.registered, usb_byte(left_key(m)))
    } else {
        s.registered
    }
}

/// The report USBKeyboard sends after a scan: the registered keys plus the
/// left key of every modifier that is set but was not pressed in this batch.
pub open spec fn usb_report(s: UsbScan) -> Seq<u8> {
    let r1 = register_held(s, Modifier::Shift);
    let r2 = register_held(UsbScan { registered: r1, ..s }, Modifier::Alt);
    let r3 = register_held(UsbScan { registered: r2, ..s }, Modifier::Ctrl);
    register_held(UsbScan { registered: r3, ..s }, Modifier::Gui)
}

/// The default bottom layer.
///
/// This simulates a bog standard regular USB keyboard: map your keys to
/// the USB key codes. Key presses are reported as long as the key is
/// held; a release ends every earlier press of the same physical key
/// (press and release pair up by their original key code, whatever a
/// layer rewrote them to). Modifier keys set the modifier state, and
/// set modifiers are reported with their left key.
pub struct USBKeyboard {}

impl USBKeyboard {
    pub fn new() -> (r: USBKeyboard) {
        USBKeyboard {}
    }
}

/// The modifier a key code stands for.
fn modifier_for(code: u32) -> (r: Option<Modifier>)
    ensures
        r == modifier_of(code),
{
    if code == KeyCode::LShift.to_u32() || code == KeyCode::RShift.to_u32() {
        Some(Modifier::Shift)
    } else if code == KeyCode::LAlt.to_u32() || code == KeyCode::RAlt.to_u32() {
        Some(Modifier::Alt)
    } else if code == KeyCode::LCtrl.to_u32() || code == KeyCode::RCtrl.to_u32() {
        Some(Modifier::Ctrl)
    } else if code == KeyCode::LGui.to_u32() || code == KeyCode::RGui.to_u32() {
        Some(Modifier::Gui)
    } else {
        None
    }
}

impl ProcessKeys for USBKeyboard {
    open spec fn processes(&self, events: Seq<(Event, EventStatus)>, out: OutView) -> (
        Seq<(Event, EventStatus)>,
        OutView,
        HandlerResult,
    ) {
        let (s, evs) = usb_scan(usb_start(out.flags, out.registered), events);
        (
            evs,
            OutView {
                reports: out.reports.push(usb_report(s)),
                registered: Seq::empty(),
                flags: s.flags,
                ..out
            },
            HandlerResult::NoOp,
        )
    }

    closed spec fn behaviour(&self, calls: Seq<Call>) -> Seq<CallResult>
        decreases calls.len(),
    {
        if calls.len() == 0 {
            Seq::empty()
        } else {
            seq![self.processes(calls[0].0, calls[0].1)] + self.behaviour(calls.drop_first())
        }
    }


    fn process_keys(
        &mut self,
        events: &mut Vec<(Event, EventStatus)>,
        output: &mut KeyOutCatcher,
    ) -> (r: HandlerResult)
        ensures
            r == HandlerResult::NoOp,
            ({
                let start = usb_start(old(output).kb().flags(), old(output).registered());
                let (s, evs) = usb_scan(start, old(events)@);
                &&& final(events)@ == evs
                &&& final(output).kb().flags() == s.flags
                &&& final(output).report_log() == old(output).report_log().push(usb_report(s))
                &&& final(output).registered() == Seq::<u8>::empty()
            }),
            final(output).kb().mode() == old(output).kb().mode(),
            final(output).kb().oneshot_triggers() == old(output).kb().oneshot_triggers(),
    {
        //step 0: on key release, remove all prior key presses.
        let ghost start = usb_start(old(output).kb().flags(), old(output).registered());
        let mut originals_to_delete: Vec<u32> = Vec::new();
        let mut modifiers_sent = sbv_from_elem(4, false);
        assert(bit_contents(modifiers_sent) =~= seq![false, false, false, false]);
        let n = events.len();
        let mut i = n;
        //note that we're doing this in reverse, ie. releases happen before presses.
        while i > 0
            invariant
                n == events@.len(),
                n == old(events)@.len(),
                i <= n,
                events@.subrange(0, i as int) == old(events)@.subrange(0, i as int),
                ({
                    let (s, evs) = usb_scan(start, old(events)@.subrange(i as int, n as int));
                    &&& events@.subrange(i as int, n as int) == evs
                    &&& s.deleted_orig == originals_to_delete@
                    &&& s.sent == bit_contents(modifiers_sent)
                    &&& s.sent.len() == 4
                    &&& s.flags == output.kb().flags()
                    &&& s.registered == output.registered()
                }),
                output.report_log() == old(output).report_log(),
                output.debug_log() == old(output).debug_log(),
                output.kb().mode() == old(output).kb().mode(),
                output.kb().oneshot_triggers() == old(output).kb().oneshot_triggers(),
            decreases i,
        {
            i -= 1;
            let ghost suffix = old(events)@.subrange(i as int + 1, n as int);
            let ghost full = old(events)@.subrange(i as int, n as int);
            assert(full.subrange(1, full.len() as int) =~= suffix);
            assert(full[0] == old(events)@[i as int]);
            let ghost before = events@;
            let (event, status) = events[i];
            assert(events@[i as int] == old(events)@.subrange(0, i + 1)[i as int]);
            if status == EventStatus::Unhandled {
                match event {
                    Event::KeyRelease(kc) => {
                        let mut new_status = status;
                        if kc.keycode.is_usb_keycode() {
                            if !contains_code(&originals_to_delete, kc.original_keycode) {
                                originals_to_delete.push(kc.original_keycode);
                            }
                            new_status = EventStatus::Handled;
                        }
                        match modifier_for(kc.keycode) {
                            Some(m) => {
                                output.state().set_modifier(m, false);
                            },
                            None => {},
                        }
                        events.set(i, (event, new_status));
                    },
                    Event::KeyPress(kc) => {
                        let mut kc = kc;
                        let mut new_status = status;
                        let mut send = false;
                        if kc.keycode.is_usb_keycode() && contains_code(
                            &originals_to_delete,
                            kc.original_keycode,
                        ) {
                            new_status = EventStatus::Handled;
                            if kc.flag & 1 == 0 {
                                //we have never sent this before
                                send = true;
                            }
                        } else {
                            send = true;
                            match modifier_for(kc.keycode) {
                                Some(m) => {
                                    output.state().set_modifier(m, true);
                                    sbv_set(&mut modifiers_sent, m.to_bit(), true);
                                },
                                None => {},
                            }
                        }
                        if kc.keycode.is_usb_keycode() {
                            let byte = (kc.keycode - UNICODE_BELOW_256) as u8;
                            match KeyCode::try_from(byte) {
                                Ok(x) => {
                                    if send {
                                        output.register_key(x);
                                    }
                                    if new_status != EventStatus::Handled {
                                        new_status = EventStatus::Ignored;  //so we may resend it...
                                    }
                                },
                                Err(_) => new_status = EventStatus::Handled,  //throw it away
                            }
                            kc.flag = kc.flag | 1;
                        }
                        events.set(i, (Event::KeyPress(kc), new_status));
                    },
                    Event::TimeOut(_) => {},
                }
            }
            assert(events@.subrange(i as int, n as int) =~= seq![events@[i as int]]
                + events@.subrange(i + 1, n as int));
            assert(events@.subrange(i + 1, n as int) =~= before.subrange(i + 1, n as int));
            assert(events@.subrange(0, i as int) =~= before.subrange(0, i as int));
        }
        assert(events@.subrange(0, n as int) =~= events@);
        assert(old(events)@.subrange(0, n as int) =~= old(events)@);
        let ghost s = usb_scan(start, old(events)@).0;
        let ghost r1 = register_held(s, Modifier::Shift);
        let ghost r2 = register_held(UsbScan { registered: r1, ..s }, Modifier::Alt);
        let ghost r3 = register_held(UsbScan { registered: r2, ..s }, Modifier::Ctrl);
        if output.ro_state().modifier(Modifier::Shift) && !sbv_get(&modifiers_sent, 0).unwrap() {
            output.register_key(KeyCode::LShift);
        }
        assert(output.registered() == r1);
        if output.ro_state().modifier(Modifier::Alt) && !sbv_get(&modifiers_sent, 2).unwrap() {
            output.register_key(KeyCode::LAlt);
        }
        assert(output.registered() == r2);
        if output.ro_state().modifier(Modifier::Ctrl) && !sbv_get(&modifiers_sent, 1).unwrap() {
            output.register_key(KeyCode::LCtrl);
        }
        assert(output.registered() == r3);
        if output.ro_state().modifier(Modifier::Gui) && !sbv_get(&modifiers_sent, 3).unwrap() {
            output.register_key(KeyCode::LGui);
        }
        assert(output.registered() == usb_report(s));
        output.send_registered();
        proof {
            assert forall|calls: Seq<Call>|
                calls.len() > 0 implies #[trigger] self.behaviour(calls)[0] == self.processes(
                calls[0].0,
                calls[0].1,
            ) by {
            lemma_prepend_call(
                calls[0],
                calls.drop_first(),
                self.processes(calls[0].0, calls[0].1),
                self.behaviour(calls.drop_first()),
            );
            }
            assert forall|calls: Seq<Call>|
                calls.len() > 0 implies #[trigger] old(self).behaviour(calls)[0] == old(self).processes(
                calls[0].0,
                calls[0].1,
            ) by {
            lemma_prepend_call(
                calls[0],
                calls.drop_first(),
                old(self).processes(calls[0].0, calls[0].1),
                old(self).behaviour(calls.drop_first()),
            );
            }
            let x = (old(events)@, old(output)@);
            assert(*self == *old(self));
            assert forall|calls: Seq<Call>|
                #[trigger] self.behaviour(calls) == old(self).behaviour(seq![x] + calls).drop_first() by {
                lemma_prepend_call(x, calls, old(self).processes(x.0, x.1), self.behaviour(calls));
            }
        }
        HandlerResult::NoOp
    }

    fn default_enabled(&self) -> (r: bool) {
        true
    }

    fn oneshot_triggers(&self) -> (r: Vec<u32>) {
        Vec::new()
    }
}


/// Whether `entry` is an unhandled release that ends earlier presses of
/// the key `kc`: a release of a USB key code by the same physical key
/// (press and release pair up by their original key code).
pub open spec fn ends_press(entry: (Event, EventStatus), kc: Key) -> bool {
    releases_code(entry, kc.original_keycode)
}

/// Whether `entry` is an unhandled release of a USB key code whose
/// original key code is `x`.
pub open spec fn releases_code(entry: (Event, EventStatus), x: u32) -> bool {
    &&& entry.1 == EventStatus::Unhandled
    &&& match entry.0 {
        Event::KeyRelease(kr) => is_usb_code(kr.keycode) && kr.original_keycode == x,
        _ => false,
    }
}

proof fn lemma_add_unique(codes: Seq<u32>, c: u32, x: u32)
    ensures
        add_unique(codes, c).contains(x) <==> (codes.contains(x) || x == c),
{
    if !codes.contains(c) {
        let pushed = codes.push(c);
        assert(pushed[codes.len() as int] == c);
        if codes.contains(x) {
            let k = choose|k: int| 0 <= k < codes.len() && codes[k] == x;
            assert(pushed[k] == x);
        }
        if pushed.contains(x) {
            let k = choose|k: int| 0 <= k < pushed.len() && pushed[k] == x;
            if k < codes.len() {
                assert(codes[k] == x);
            }
        }
    }
}

proof fn lemma_register_keeps(reg: Seq<u8>, b: u8, x: u8)
    ensures
        register(reg, b).contains(b),
        reg.contains(x) ==> register(reg, b).contains(x),
{
    if !reg.contains(b) {
        let pushed = reg.push(b);
        assert(pushed[reg.len() as int] == b);
        if reg.contains(x) {
            let k = choose|k: int| 0 <= k < reg.len() && reg[k] == x;
            assert(pushed[k] == x);
        }
    }
}

/// One step keeps what was registered, and the released codes.
proof fn lemma_usb_step_keeps(s: UsbScan, entry: (Event, EventStatus), b: u8)
    ensures
        s.registered.contains(b) ==> usb_step(s, entry).0.registered.contains(b),
        forall|x: u32|
            #![trigger usb_step(s, entry).0.deleted_orig.contains(x)]
            usb_step(s, entry).0.deleted_orig.contains(x) <==> (s.deleted_orig.contains(x)
                || releases_code(entry, x)),
{
    if entry.1 == EventStatus::Unhandled {
        match entry.0 {
            Event::KeyRelease(kc) => {
                assert forall|x: u32| #![auto] add_unique(s.deleted_orig, kc.original_keycode).contains(
                    x,
                ) <==> (s.deleted_orig.contains(x) || x == kc.original_keycode) by {
                    lemma_add_unique(s.deleted_orig, kc.original_keycode, x);
                }
            },
            Event::KeyPress(kc) => {
                let code = kc.keycode;
                if is_usb_code(code) {
                    let byte = (code - UNICODE_BELOW_256) as u8;
                    lemma_register_keeps(s.registered, byte, b);
                }
            },
            Event::TimeOut(_) => {},
        }
    }
}

/// A scan keeps what was registered before it, and its released codes
/// are those released before it plus those released in the events.
proof fn lemma_usb_scan_keeps(s: UsbScan, events: Seq<(Event, EventStatus)>, b: u8)
    ensures
        s.registered.contains(b) ==> usb_scan(s, events).0.registered.contains(b),
        usb_scan(s, events).1.len() == events.len(),
        forall|x: u32|
            #![trigger usb_scan(s, events).0.deleted_orig.contains(x)]
            usb_scan(s, events).0.deleted_orig.contains(x) <==> (s.deleted_orig.contains(x)
                || exists|j: int| 0 <= j < events.len() && #[trigger] releases_code(events[j], x)),
    decreases events.len(),
{
    if events.len() > 0 {
        let rest = events.subrange(1, events.len() as int);
        lemma_usb_scan_keeps(s, rest, b);
        let s1 = usb_scan(s, rest).0;
        lemma_usb_step_keeps(s1, events[0], b);
        assert forall|x: u32| #![auto] usb_scan(s, events).0.deleted_orig.contains(x) <==> (
        s.deleted_orig.contains(x) || exists|j: int|
            0 <= j < events.len() && #[trigger] releases_code(events[j], x)) by {
            if exists|j: int| 0 <= j < events.len() && #[trigger] releases_code(events[j], x) {
                let j = choose|j: int| 0 <= j < events.len() && #[trigger] releases_code(events[j], x);
                if j > 0 {
                    assert(rest[j - 1] == events[j]);
                }
            }
            if exists|j: int| 0 <= j < rest.len() && #[trigger] releases_code(rest[j], x) {
                let j = choose|j: int| 0 <= j < rest.len() && #[trigger] releases_code(rest[j], x);
                assert(events[j + 1] == rest[j]);
            }
        }
    }
}

/// The event at `i` after a scan is the step on it from the state the
/// scan of the later events left.
proof fn lemma_usb_scan_at(s: UsbScan, events: Seq<(Event, EventStatus)>, i: int)
    requires
        0 <= i < events.len(),
    ensures
        usb_scan(s, events).1[i] == usb_step(
            usb_scan(s, events.subrange(i + 1, events.len() as int)).0,
            events[i],
        ).1,
    decreases events.len(),
{
    let rest = events.subrange(1, events.len() as int);
    lemma_usb_scan_keeps(s, rest, 0);
    if i == 0 {
    } else {
        lemma_usb_scan_at(s, rest, i - 1);
        assert(rest.subrange(i, rest.len() as int) =~= events.subrange(i + 1, events.len() as int));
        assert(rest[i - 1] == events[i]);
    }
}

/// What the scan of the later events registered stays registered.
proof fn lemma_usb_scan_suffix_keeps(s: UsbScan, events: Seq<(Event, EventStatus)>, i: int, b: u8)
    requires
        0 <= i <= events.len(),
        usb_scan(s, events.subrange(i, events.len() as int)).0.registered.contains(b),
    ensures
        usb_scan(s, events).0.registered.contains(b),
    decreases i,
{
    if i == 0 {
        assert(events.subrange(0, events.len() as int) =~= events);
    } else {
        let rest = events.subrange(1, events.len() as int);
        assert(rest.subrange(i - 1, rest.len() as int) =~= events.subrange(i, events.len() as int));
        lemma_usb_scan_suffix_keeps(s, rest, i - 1, b);
        lemma_usb_step_keeps(usb_scan(s, rest).0, events[0], b);
    }
}

/// The report holds every key registered during the scan.
proof fn lemma_usb_report_keeps(s: UsbScan, b: u8)
    requires
        s.registered.contains(b),
    ensures
        usb_report(s).contains(b),
{
    let r1 = register_held(s, Modifier::Shift);
    let r2 = register_held(UsbScan { registered: r1, ..s }, Modifier::Alt);
    let r3 = register_held(UsbScan { registered: r2, ..s }, Modifier::Ctrl);
    lemma_register_keeps(s.registered, usb_byte(left_key(Modifier::Shift)), b);
    lemma_register_keeps(r1, usb_byte(left_key(Modifier::Alt)), b);
    lemma_register_keeps(r2, usb_byte(left_key(Modifier::Ctrl)), b);
    lemma_register_keeps(r3, usb_byte(left_key(Modifier::Gui)), b);
}

/// USBKeyboard law: a USB key press that no later release ends is
/// reported (however many keys are held), and it is kept (Ignored) so
/// that it is reported again with the next events.
pub proof fn law_usb_held_key_reported(
    flags: Seq<bool>,
    registered: Seq<u8>,
    events: Seq<(Event, EventStatus)>,
    i: int,
    kc: Key,
)
    requires
        0 <= i < events.len(),
        events[i] == (Event::KeyPress(kc), EventStatus::Unhandled),
        is_usb_code(kc.keycode),
        is_keycode_value(kc.keycode),
        forall|j: int| i < j < events.len() ==> !ends_press(#[trigger] events[j], kc),
    ensures
        usb_report(usb_scan(usb_start(flags, registered), events).0).contains(
            (kc.keycode - UNICODE_BELOW_256) as u8,
        ),
        usb_scan(usb_start(flags, registered), events).1[i].1 == EventStatus::Ignored,
{
    let start = usb_start(flags, registered);
    let later = events.subrange(i + 1, events.len() as int);
    let si = usb_scan(start, later).0;
    let byte = (kc.keycode - UNICODE_BELOW_256) as u8;
    lemma_usb_scan_keeps(start, later, byte);
    if si.deleted_orig.contains(kc.original_keycode) {
        let j = choose|j: int|
            0 <= j < later.len() && #[trigger] releases_code(later[j], kc.original_keycode);
        assert(later[j] == events[i + 1 + j]);
        assert(ends_press(events[i + 1 + j], kc));
    }
    let stepped = usb_step(si, events[i]).0;
    lemma_register_keeps(si.registered, byte, byte);
    assert(stepped.registered.contains(byte));
    assert(events.subrange(i, events.len() as int).subrange(1, events.len() - i) =~= later);
    assert(events.subrange(i, events.len() as int)[0] == events[i]);
    lemma_usb_scan_suffix_keeps(start, events, i, byte);
    lemma_usb_scan_keeps(start, events, byte);
    lemma_usb_report_keeps(usb_scan(start, events).0, byte);
    lemma_usb_scan_at(start, events, i);
}

/// USBKeyboard law: a press of a USB key code that a later release of a
/// USB key code by the same physical key ends is done: it is Handled and
/// leaves the event queue.
pub proof fn law_usb_released_key_done(
    flags: Seq<bool>,
    registered: Seq<u8>,
    events: Seq<(Event, EventStatus)>,
    i: int,
    j: int,
    kc: Key,
)
    requires
        0 <= i < j < events.len(),
        events[i] == (Event::KeyPress(kc), EventStatus::Unhandled),
        is_usb_code(kc.keycode),
        ends_press(events[j], kc),
    ensures
        usb_scan(usb_start(flags, registered), events).1[i].1 == EventStatus::Handled,
{
    let start = usb_start(flags, registered);
    let later = events.subrange(i + 1, events.len() as int);
    let si = usb_scan(start, later).0;
    lemma_usb_scan_keeps(start, later, 0);
    assert(later[j - i - 1] == events[j]);
    assert(releases_code(later[j - i - 1], kc.original_keycode));
    assert(si.deleted_orig.contains(kc.original_keycode));
    lemma_usb_scan_at(start, events, i);
}

/// USBKeyboard law: every unhandled release of a USB key code is Handled.
pub proof fn law_usb_release_handled(
    flags: Seq<bool>,
    registered: Seq<u8>,
    events: Seq<(Event, EventStatus)>,
    i: int,
    kc: Key,
)
    requires
        0 <= i < events.len(),
        events[i] == (Event::KeyRelease(kc), EventStatus::Unhandled),
        is_usb_code(kc.keycode),
    ensures
        usb_scan(usb_start(flags, registered), events).1[i].1 == EventStatus::Handled,
{
    lemma_usb_scan_at(usb_start(flags, registered), events, i);
}


/// The state USBKeyboard has reached once it scanned the events from
/// position `k` on (it scans the newest first).
pub open spec fn suffix_state(s: UsbScan, events: Seq<(Event, EventStatus)>, k: int) -> UsbScan {
    usb_scan(s, events.subrange(k, events.len() as int)).0
}

proof fn lemma_usb_step_flags_len(s: UsbScan, entry: (Event, EventStatus))
    requires
        s.flags.len() >= 4,
    ensures
        usb_step(s, entry).0.flags.len() == s.flags.len(),
{
    if entry.1 == EventStatus::Unhandled {
        match entry.0 {
            Event::KeyRelease(kc) => {
                match modifier_of(kc.keycode) {
                    Some(m) => {},
                    None => {},
                }
            },
            Event::KeyPress(kc) => {
                match modifier_of(kc.keycode) {
                    Some(m) => {},
                    None => {},
                }
            },
            Event::TimeOut(_) => {},
        }
    }
}

proof fn lemma_suffix_step(s: UsbScan, events: Seq<(Event, EventStatus)>, k: int)
    requires
        0 <= k < events.len(),
    ensures
        suffix_state(s, events, k) == usb_step(suffix_state(s, events, k + 1), events[k]).0,
{
    let full = events.subrange(k, events.len() as int);
    assert(full.subrange(1, full.len() as int) =~= events.subrange(k + 1, events.len() as int));
    assert(full[0] == events[k]);
}

proof fn lemma_suffix_flags_len(s: UsbScan, events: Seq<(Event, EventStatus)>, k: int)
    requires
        0 <= k <= events.len(),
        s.flags.len() >= 4,
    ensures
        suffix_state(s, events, k).flags.len() == s.flags.len(),
    decreases events.len() - k,
{
    if k < events.len() {
        lemma_suffix_flags_len(s, events, k + 1);
        lemma_suffix_step(s, events, k);
        lemma_usb_step_flags_len(suffix_state(s, events, k + 1), events[k]);
    } else {
        assert(events.subrange(k, events.len() as int) =~= Seq::<(Event, EventStatus)>::empty());
    }
}

/// Whether `entry` is an unhandled release of a key of the modifier `m`.
pub open spec fn releases_modifier(entry: (Event, EventStatus), m: Modifier) -> bool {
    entry.1 == EventStatus::Unhandled && (entry.0 matches Event::KeyRelease(kr) && modifier_of(
        kr.keycode,
    ) == Some(m))
}

/// Whether `entry` is an unhandled press of a key of the modifier `m`.
pub open spec fn presses_modifier(entry: (Event, EventStatus), m: Modifier) -> bool {
    entry.1 == EventStatus::Unhandled && (entry.0 matches Event::KeyPress(kc) && modifier_of(
        kc.keycode,
    ) == Some(m))
}

/// Whether the event at `p` is a key press that no later release ends.
pub open spec fn still_held(events: Seq<(Event, EventStatus)>, p: int) -> bool {
    match events[p].0 {
        Event::KeyPress(kc) => !exists|x: int| p < x < events.len() && #[trigger] ends_press(events[x], kc),
        _ => false,
    }
}

proof fn lemma_flag_stays_set(s: UsbScan, events: Seq<(Event, EventStatus)>, k: int, i: int, m: Modifier)
    requires
        0 <= k <= i < events.len(),
        s.flags.len() >= 4,
        suffix_state(s, events, i).flags[m.bit()],
        forall|j: int| 0 <= j < i ==> !releases_modifier(#[trigger] events[j], m),
    ensures
        suffix_state(s, events, k).flags[m.bit()],
    decreases i - k,
{
    if k < i {
        lemma_flag_stays_set(s, events, k + 1, i, m);
        lemma_suffix_step(s, events, k);
        lemma_suffix_flags_len(s, events, k + 1);
        assert(!releases_modifier(events[k], m));
    }
}

/// One step keeps a modifier clear unless it is a press of one of the
/// modifier's keys that is not done yet.
proof fn lemma_clear_step(s: UsbScan, entry: (Event, EventStatus), m: Modifier)
    requires
        s.flags.len() >= 4,
        !s.flags[m.bit()],
        presses_modifier(entry, m) ==> s.deleted_orig.contains(
            entry.0->KeyPress_0.original_keycode,
        ),
    ensures
        !usb_step(s, entry).0.flags[m.bit()],
{
    if entry.1 == EventStatus::Unhandled {
        match entry.0 {
            Event::KeyPress(kc) => {
                if modifier_of(kc.keycode) == Some(m) {
                    assert(presses_modifier(entry, m));
                }
            },
            _ => {},
        }
    }
}

proof fn lemma_flag_stays_clear(s: UsbScan, events: Seq<(Event, EventStatus)>, k: int, j: int, m: Modifier)
    requires
        0 <= k <= j < events.len(),
        s.flags.len() >= 4,
        s.deleted_orig.len() == 0,
        !suffix_state(s, events, j).flags[m.bit()],
        forall|p: int|
            0 <= p < j && #[trigger] presses_modifier(events[p], m) ==> !still_held(events, p),
    ensures
        !suffix_state(s, events, k).flags[m.bit()],
    decreases j - k,
{
    if k < j {
        lemma_flag_stays_clear(s, events, k + 1, j, m);
        lemma_suffix_step(s, events, k);
        lemma_suffix_flags_len(s, events, k + 1);
        if presses_modifier(events[k], m) {
            lemma_press_done(s, events, k);
        }
        lemma_clear_step(suffix_state(s, events, k + 1), events[k], m);
    }
}

/// A press that a later release ends is done when the scan reaches it.
proof fn lemma_press_done(s: UsbScan, events: Seq<(Event, EventStatus)>, k: int)
    requires
        0 <= k < events.len(),
        events[k].0 is KeyPress,
        !still_held(events, k),
    ensures
        suffix_state(s, events, k + 1).deleted_orig.contains(
            events[k].0->KeyPress_0.original_keycode,
        ),
{
    let kc = events[k].0->KeyPress_0;
    let later = events.subrange(k + 1, events.len() as int);
    lemma_usb_scan_keeps(s, later, 0);
    let x = choose|x: int| k < x < events.len() && #[trigger] ends_press(events[x], kc);
    assert(later[x - k - 1] == events[x]);
    assert(releases_code(later[x - k - 1], kc.original_keycode));
}

/// USBKeyboard law: a modifier key that is pressed, with no later release
/// ending the press and no earlier release of that modifier's keys in the
/// events, sets its modifier.
pub proof fn law_usb_modifier_set(
    flags: Seq<bool>,
    registered: Seq<u8>,
    events: Seq<(Event, EventStatus)>,
    i: int,
    kc: Key,
    m: Modifier,
)
    requires
        flags.len() >= 4,
        0 <= i < events.len(),
        events[i] == (Event::KeyPress(kc), EventStatus::Unhandled),
        modifier_of(kc.keycode) == Some(m),
        forall|j: int| i < j < events.len() ==> !ends_press(#[trigger] events[j], kc),
        forall|j: int| 0 <= j < i ==> !releases_modifier(#[trigger] events[j], m),
    ensures
        usb_scan(usb_start(flags, registered), events).0.flags[m.bit()],
{
    let start = usb_start(flags, registered);
    let later = events.subrange(i + 1, events.len() as int);
    let si = usb_scan(start, later).0;
    lemma_usb_scan_keeps(start, later, 0);
    if si.deleted_orig.contains(kc.original_keycode) {
        let j = choose|j: int|
            0 <= j < later.len() && #[trigger] releases_code(later[j], kc.original_keycode);
        assert(later[j] == events[i + 1 + j]);
        assert(ends_press(events[i + 1 + j], kc));
    }
    lemma_suffix_step(start, events, i);
    lemma_suffix_flags_len(start, events, i + 1);
    lemma_flag_stays_set(start, events, 0, i, m);
    assert(events.subrange(0, events.len() as int) =~= events);
}

/// USBKeyboard law: the release of a modifier key clears its modifier,
/// unless an earlier press of that modifier's keys is still held (no
/// release after it ends it).
pub proof fn law_usb_modifier_cleared(
    flags: Seq<bool>,
    registered: Seq<u8>,
    events: Seq<(Event, EventStatus)>,
    j: int,
    kr: Key,
    m: Modifier,
)
    requires
        flags.len() >= 4,
        0 <= j < events.len(),
        events[j] == (Event::KeyRelease(kr), EventStatus::Unhandled),
        modifier_of(kr.keycode) == Some(m),
        forall|p: int|
            0 <= p < j && #[trigger] presses_modifier(events[p], m) ==> !still_held(events, p),
    ensures
        !usb_scan(usb_start(flags, registered), events).0.flags[m.bit()],
{
    let start = usb_start(flags, registered);
    lemma_suffix_step(start, events, j);
    lemma_suffix_flags_len(start, events, j + 1);
    lemma_flag_stays_clear(start, events, 0, j, m);
    assert(events.subrange(0, events.len() as int) =~= events);
}

/// The flag of a key event (a timeout has none).
pub open spec fn event_flag(e: Event) -> u8 {
    match e {
        Event::KeyPress(kc) => kc.flag,
        Event::KeyRelease(kc) => kc.flag,
        Event::TimeOut(_) => 0,
    }
}

/// USBKeyboard law: USBKeyboard only ever sets bit 0 of a key's flag (the
/// press was reported); the other bits, such as the mark of a layer
/// rewrite (bit 1), stay as they were, and every event keeps its kind.
pub proof fn law_usb_keeps_flag_bits(
    flags: Seq<bool>,
    registered: Seq<u8>,
    events: Seq<(Event, EventStatus)>,
    i: int,
)
    requires
        0 <= i < events.len(),
    ensures
        usb_scan(usb_start(flags, registered), events).1.len() == events.len(),
        event_flag(usb_scan(usb_start(flags, registered), events).1[i].0) & 0xfe == event_flag(
            events[i].0,
        ) & 0xfe,
        usb_scan(usb_start(flags, registered), events).1[i].0 is KeyPress <==> events[i].0 is KeyPress,
        usb_scan(usb_start(flags, registered), events).1[i].0 is KeyRelease <==> events[i].0 is KeyRelease,
{
    let start = usb_start(flags, registered);
    lemma_usb_scan_keeps(start, events, 0);
    lemma_usb_scan_at(start, events, i);
    match events[i].0 {
        Event::KeyPress(kc) => {
            let f = kc.flag;
            assert((f | 1u8) & 0xfeu8 == f & 0xfeu8) by (bit_vector);
        },
        _ => {},
    }
}

/// USBKeyboard law: USBKeyboard leaves timeouts, and key events whose key
/// code is not a USB key code, exactly as they came.
pub proof fn law_usb_leaves_other_events(
    flags: Seq<bool>,
    registered: Seq<u8>,
    events: Seq<(Event, EventStatus)>,
    i: int,
)
    requires
        0 <= i < events.len(),
        match events[i].0 {
            Event::KeyPress(kc) => !is_usb_code(kc.keycode),
            Event::KeyRelease(kc) => !is_usb_code(kc.keycode),
            Event::TimeOut(_) => true,
        },
    ensures
        usb_scan(usb_start(flags, registered), events).1[i] == events[i],
{
    lemma_usb_scan_at(usb_start(flags, registered), events, i);
}

} // verus!
