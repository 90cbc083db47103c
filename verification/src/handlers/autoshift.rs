//! AutoShift: keys held beyond a threshold are sent shifted.
use vstd::prelude::*;
use crate::handlers::{Call, CallResult, lemma_prepend_call};
use crate::handlers::{HandlerResult, ProcessKeys, contains_code};
use crate::key_codes::{KeyCode, keycode_value, UNICODE_BELOW_256};
use crate::key_stream::{Event, EventStatus, Key};
use crate::output::{KeyOutCatcher, OutView, usb_byte};

verus! {

/// Which keys AutoShift shifts.
pub ghost struct AutoShiftCfg {
    pub shift_letters: bool,
    pub shift_numbers: bool,
    pub shift_special: bool,
    pub threshold_ms: u16,
}

/// Whether AutoShift shifts this key code: letters A..Z, numbers 1..0, and
/// the special characters from Minus to Slash, as configured.
pub open spec fn autoshifts(cfg: AutoShiftCfg, keycode: u32) -> bool {
    (cfg.shift_letters && keycode_value(KeyCode::A) <= keycode <= keycode_value(KeyCode::Z)) || (
    cfg.shift_numbers && keycode_value(KeyCode::Kb1) <= keycode <= keycode_value(KeyCode::Kb0)) || (
    cfg.shift_special && keycode_value(KeyCode::Minus) <= keycode <= keycode_value(KeyCode::Slash))
}

/// Law: which keys AutoShift shifts, by their USB usage ids: with
/// `shift_letters` the letters A to Z (0x04 to 0x1D), with `shift_numbers`
/// the digits 1 to 0 (0x1E to 0x27), with `shift_special` Minus to Slash
/// (0x2D to 0x38: minus, equal, brackets, backslash, hash, semicolon,
/// quote, grave, comma, dot, slash); no other key.
pub proof fn law_autoshift_keys(cfg: AutoShiftCfg, keycode: u32)
    ensures
        autoshifts(cfg, keycode) <==> (cfg.shift_letters && 0x100004 <= keycode <= 0x10001d) || (
        cfg.shift_numbers && 0x10001e <= keycode <= 0x100027) || (cfg.shift_special && 0x10002d
            <= keycode <= 0x100038),
{
}

/// The report for a release of `keycode` that was pressed at `pressed_ms`:
/// the key with LShift if it was held at least the threshold, else the key.
pub open spec fn autoshift_report(cfg: AutoShiftCfg, keycode: u32, pressed_ms: u16, released_ms: u16) -> Seq<u8> {
    let key = (keycode - UNICODE_BELOW_256) as u8;
    if released_ms.wrapping_sub(pressed_ms) >= cfg.threshold_ms {
        seq![usb_byte(KeyCode::LShift), key]
    } else {
        seq![key]
    }
}

/// The reports for a release, one per earlier press of the same key.
pub open spec fn release_reports(cfg: AutoShiftCfg, presses: Seq<(u32, u16)>, keycode: u32, released_ms: u16) -> Seq<Seq<u8>>
    decreases presses.len(),
{
    if presses.len() == 0 {
        Seq::empty()
    } else {
        let rest = release_reports(cfg, presses.drop_last(), keycode, released_ms);
        if presses.last().0 == keycode {
            rest.push(autoshift_report(cfg, keycode, presses.last().1, released_ms))
        } else {
            rest
        }
    }
}

/// The handled key codes after a release: one entry per earlier press of the same key.
pub open spec fn release_handled(presses: Seq<(u32, u16)>, keycode: u32, handled: Seq<u32>) -> Seq<u32>
    decreases presses.len(),
{
    if presses.len() == 0 {
        handled
    } else {
        let rest = release_handled(presses.drop_last(), keycode, handled);
        if presses.last().0 == keycode {
            rest.push(keycode)
        } else {
            rest
        }
    }
}

/// What AutoShift has seen while scanning the events oldest first.
pub ghost struct AutoShiftScan {
    /// presses of shiftable keys with their time
    pub presses: Seq<(u32, u16)>,
    /// key codes whose presses are done
    pub handled: Seq<u32>,
    pub reports: Seq<Seq<u8>>,
}

/// AutoShift's treatment of one event in its first pass.
pub open spec fn autoshift_step(cfg: AutoShiftCfg, s: AutoShiftScan, entry: (Event, EventStatus)) -> (
    AutoShiftScan,
    (Event, EventStatus),
) {
    if entry.1 != EventStatus::Unhandled {
        (s, entry)
    } else {
        match entry.0 {
            Event::KeyPress(kc) => if autoshifts(cfg, kc.keycode) {
                (
                    AutoShiftScan { presses: s.presses.push((kc.keycode, kc.ms_since_last)), ..s },
                    (entry.0, EventStatus::Ignored),
                )
            } else {
                (s, entry)
            },
            Event::KeyRelease(kc) => if autoshifts(cfg, kc.keycode) {
                (
                    AutoShiftScan {
                        presses: s.presses,
                        handled: release_handled(s.presses, kc.keycode, s.handled),
                        reports: s.reports + release_reports(
                            cfg,
                            s.presses,
                            kc.keycode,
                            kc.ms_since_last,
                        ),
                    },
                    (entry.0, EventStatus::Handled),
                )
            } else {
                (s, entry)
            },
            Event::TimeOut(_) => (s, entry),
        }
    }
}

/// AutoShift's first pass over the events, oldest first.
pub open spec fn autoshift_scan(cfg: AutoShiftCfg, s: AutoShiftScan, events: Seq<(Event, EventStatus)>) -> (
    AutoShiftScan,
    Seq<(Event, EventStatus)>,
)
    decreases events.len(),
{
    if events.len() == 0 {
        (s, events)
    } else {
        let (s1, rest) = autoshift_scan(cfg, s, events.drop_last());
        let (s2, last) = autoshift_step(cfg, s1, events.last());
        (s2, rest.push(last))
    }
}

/// The second pass: the presses of keys whose release was sent are done.
pub open spec fn finish_press(handled: Seq<u32>, entry: (Event, EventStatus)) -> (Event, EventStatus) {
    match entry.0 {
        Event::KeyPress(kc) => if handled.contains(kc.keycode) {
            (entry.0, EventStatus::Handled)
        } else {
            entry
        },
        _ => entry,
    }
}

/// Shift keys if they're pressed beyond threshold_ms; supposedly for RSI
/// sufferers. The key is sent (shifted or not) upon release.
pub struct AutoShift {
    pub shift_letters: bool,
    pub shift_numbers: bool,
    pub shift_special: bool,
    threshold_ms: u16,
}

impl AutoShift {
    /// The configuration.
    pub closed spec fn cfg(self) -> AutoShiftCfg {
        AutoShiftCfg {
            shift_letters: self.shift_letters,
            shift_numbers: self.shift_numbers,
            shift_special: self.shift_special,
            threshold_ms: self.threshold_ms,
        }
    }

    /// Shifts letters, numbers and special characters held at least `threshold_ms`.
    pub fn new(threshold_ms: u16) -> (r: AutoShift)
        ensures
            r.cfg() == (AutoShiftCfg {
                shift_letters: true,
                shift_numbers: true,
                shift_special: true,
                threshold_ms: threshold_ms,
            }),
    {
        AutoShift { shift_letters: true, shift_numbers: true, shift_special: true, threshold_ms }
    }

    fn should_autoshift(&self, keycode: u32) -> (r: bool)
        ensures
            r == autoshifts(self.cfg(), keycode),
    {
        (self.shift_letters && keycode >= KeyCode::A.to_u32() && keycode <= KeyCode::Z.to_u32()) || (
        self.shift_numbers && keycode >= KeyCode::Kb1.to_u32() && keycode <= KeyCode::Kb0.to_u32())
            || (self.shift_special && keycode >= KeyCode::Minus.to_u32() && keycode
            <= KeyCode::Slash.to_u32())
    }

    /// Sends the reports for a release of `keycode`, one per earlier press.
    fn send_release(
        &self,
        presses: &Vec<(u32, u16)>,
        keycode: u32,
        released_ms: u16,
        handled: &mut Vec<u32>,
        output: &mut KeyOutCatcher,
    )
        requires
            autoshifts(self.cfg(), keycode),
        ensures
            final(output).report_log() == old(output).report_log() + release_reports(
                self.cfg(),
                presses@,
                keycode,
                released_ms,
            ),
            final(handled)@ == release_handled(presses@, keycode, old(handled)@),
            final(output).registered() == old(output).registered(),
            final(output).debug_log() == old(output).debug_log(),
            final(output).kb() == old(output).kb(),
    {
        let key = match KeyCode::try_from((keycode - UNICODE_BELOW_256) as u8) {
            Ok(k) => k,
            Err(_) => KeyCode::No,
        };
        assert(usb_byte(key) == (keycode - UNICODE_BELOW_256) as u8);
        let mut i: usize = 0;
        while i < presses.len()
            invariant
                i <= presses@.len(),
                usb_byte(key) == (keycode - UNICODE_BELOW_256) as u8,
                output.report_log() == old(output).report_log() + release_reports(
                    self.cfg(),
                    presses@.subrange(0, i as int),
                    keycode,
                    released_ms,
                ),
                handled@ == release_handled(presses@.subrange(0, i as int), keycode, old(handled)@),
                output.registered() == old(output).registered(),
                output.debug_log() == old(output).debug_log(),
                output.kb() == old(output).kb(),
            decreases presses@.len() - i,
        {
            let (other_keycode, timestamp) = presses[i];
            let ghost log0 = output.report_log();
            if other_keycode == keycode {
                let delta = released_ms.wrapping_sub(timestamp);
                if delta >= self.threshold_ms {
                    output.send_keys(&[KeyCode::LShift, key]);
                } else {
                    output.send_keys(&[key]);
                }
                handled.push(keycode);
            }
            proof {
                assert(presses@.subrange(0, i + 1).drop_last() =~= presses@.subrange(0, i as int));
                assert(presses@.subrange(0, i + 1).last() == presses@[i as int]);
                if other_keycode == keycode {
                    assert(output.report_log() =~~= log0.push(
                        autoshift_report(self.cfg(), keycode, timestamp, released_ms),
                    ));
                }
            }
            i += 1;
        }
        assert(presses@.subrange(0, presses@.len() as int) =~= presses@);
    }
}

impl ProcessKeys for AutoShift {
    open spec fn processes(&self, events: Seq<(Event, EventStatus)>, out: OutView) -> (
        Seq<(Event, EventStatus)>,
        OutView,
        HandlerResult,
    ) {
        let start = AutoShiftScan { presses: Seq::empty(), handled: Seq::empty(), reports: Seq::empty() };
        let (s, evs) = autoshift_scan(self.cfg(), start, events);
        (
            Seq::new(events.len(), |i: int| finish_press(s.handled, evs[i])),
            OutView { reports: out.reports + s.reports, ..out },
            HandlerResult::NoOp,
        )
    }

    closed spec fn behaviour(&self, calls: Seq<Call>) -> Seq<CallResult>
        decreases calls.len(),
    {
        if calls.len() == 0 {
            Seq::empty()
        } else {
            seq![self.processes(calls[0].0, calls[0].1)] + self.behaviour(calls.drop_first())
        }
    }


    /// Holds back presses of shiftable keys (marking them Ignored) and
    /// sends them on release, with LShift if held at least the threshold.
    fn process_keys(
        &mut self,
        events: &mut Vec<(Event, EventStatus)>,
        output: &mut KeyOutCatcher,
    ) -> (r: HandlerResult)
        ensures
            r == HandlerResult::NoOp,
            *final(self) == *old(self),
            ({
                let start = AutoShiftScan {
                    presses: Seq::empty(),
                    handled: Seq::empty(),
                    reports: Seq::empty(),
                };
                let (s, evs) = autoshift_scan(old(self).cfg(), start, old(events)@);
                &&& final(events)@.len() == old(events)@.len()
                &&& forall|i: int|
                    0 <= i < old(events)@.len() ==> #[trigger] final(events)@[i] == finish_press(
                        s.handled,
                        evs[i],
                    )
                &&& final(output).report_log() == old(output).report_log() + s.reports
            }),
            final(output).registered() == old(output).registered(),
            final(output).debug_log() == old(output).debug_log(),
            final(output).kb() == old(output).kb(),
    {
        let ghost cfg = self.cfg();
        let ghost start = AutoShiftScan {
            presses: Seq::empty(),
            handled: Seq::empty(),
            reports: Seq::empty(),
        };
        let mut presses: Vec<(u32, u16)> = Vec::new();
        let mut handled: Vec<u32> = Vec::new();
        let n = events.len();
        let mut i: usize = 0;
        while i < n
            invariant
                n == events@.len(),
                n == old(events)@.len(),
                i <= n,
                *self == *old(self),
                cfg == self.cfg(),
                ({
                    let (s, evs) = autoshift_scan(cfg, start, old(events)@.subrange(0, i as int));
                    &&& events@.subrange(0, i as int) == evs
                    &&& s.presses == presses@
                    &&& s.handled == handled@
                    &&& output.report_log() == old(output).report_log() + s.reports
                }),
                forall|j: int| i <= j < n ==> #[trigger] events@[j] == old(events)@[j],
                output.registered() == old(output).registered(),
                output.debug_log() == old(output).debug_log(),
                output.kb() == old(output).kb(),
            decreases n - i,
        {
            let ghost before = events@;
            let ghost log0 = output.report_log();
            let (event, status) = events[i];
            if status == EventStatus::Unhandled {
                match event {
                    Event::KeyPress(kc) => {
                        if self.should_autoshift(kc.keycode) {
                            events.set(i, (event, EventStatus::Ignored));
                            presses.push((kc.keycode, kc.ms_since_last));
                        }
                    },
                    Event::KeyRelease(kc) => {
                        if self.should_autoshift(kc.keycode) {
                            self.send_release(&presses, kc.keycode, kc.ms_since_last, &mut handled, output);
                            events.set(i, (event, EventStatus::Handled));
                        }
                    },
                    _ => {},
                }
            }
            proof {
                assert(old(events)@.subrange(0, i + 1).drop_last() =~= old(events)@.subrange(0, i as int));
                assert(old(events)@.subrange(0, i + 1).last() == old(events)@[i as int]);
                assert(events@.subrange(0, i + 1) =~= before.subrange(0, i as int).push(events@[i as int]));
            }
            i += 1;
        }
        assert(old(events)@.subrange(0, n as int) =~= old(events)@);
        assert(events@.subrange(0, n as int) =~= events@);
        let ghost pass1 = events@;
        let mut j: usize = 0;
        while j < n
            invariant
                n == events@.len(),
                j <= n,
                forall|k: int| 0 <= k < j ==> #[trigger] events@[k] == finish_press(handled@, pass1[k]),
                forall|k: int| j <= k < n ==> #[trigger] events@[k] == pass1[k],
            decreases n - j,
        {
            let (event, status) = events[j];
            if let Event::KeyPress(kc) = event {
                if contains_code(&handled, kc.keycode) {
                    events.set(j, (event, EventStatus::Handled));
                }
            }
            j += 1;
        }
        proof {
            assert forall|calls: Seq<Call>|
                calls.len() > 0 implies #[trigger] self.behaviour(calls)[0] == self.processes(
                calls[0].0,
                calls[0].1,
            ) by {
            lemma_prepend_call(
                calls[0],
                calls.drop_first(),
                self.processes(calls[0].0, calls[0].1),
                self.behaviour(calls.drop_first()),
            );
            }
            assert forall|calls: Seq<Call>|
                calls.len() > 0 implies #[trigger] old(self).behaviour(calls)[0] == old(self).processes(
                calls[0].0,
                calls[0].1,
            ) by {
            lemma_prepend_call(
                calls[0],
                calls.drop_first(),
                old(self).processes(calls[0].0, calls[0].1),
                old(self).behaviour(calls.drop_first()),
            );
            }
            let x = (old(events)@, old(output)@);
            assert(*self == *old(self));
            assert forall|calls: Seq<Call>|
                #[trigger] self.behaviour(calls) == old(self).behaviour(seq![x] + calls).drop_first() by {
                lemma_prepend_call(x, calls, old(self).processes(x.0, x.1), self.behaviour(calls));
            }
        }
        HandlerResult::NoOp
    }

    fn default_enabled(&self) -> (r: bool) {
        true
    }

    fn oneshot_triggers(&self) -> (r: Vec<u32>) {
        Vec::new()
    }
}


/// Law: a tap of a key AutoShift shifts is sent once, on its release:
/// with LShift if the key was held at least the threshold, plain
/// otherwise; press and release are both done.
pub proof fn law_autoshift_tap(cfg: AutoShiftCfg, press: Key, release: Key)
    requires
        press.keycode == release.keycode,
        autoshifts(cfg, press.keycode),
    ensures
        ({
            let start = AutoShiftScan {
                presses: Seq::empty(),
                handled: Seq::empty(),
                reports: Seq::empty(),
            };
            let events = seq![
                (Event::KeyPress(press), EventStatus::Unhandled),
                (Event::KeyRelease(release), EventStatus::Unhandled),
            ];
            let (s, evs) = autoshift_scan(cfg, start, events);
            let key = (press.keycode - UNICODE_BELOW_256) as u8;
            &&& s.reports == seq![
                if release.ms_since_last.wrapping_sub(press.ms_since_last) >= cfg.threshold_ms {
                    seq![usb_byte(KeyCode::LShift), key]
                } else {
                    seq![key]
                },
            ]
            &&& finish_press(s.handled, evs[0]).1 == EventStatus::Handled
            &&& finish_press(s.handled, evs[1]).1 == EventStatus::Handled
        }),
{
    let start = AutoShiftScan { presses: Seq::empty(), handled: Seq::empty(), reports: Seq::empty() };
    let p = (Event::KeyPress(press), EventStatus::Unhandled);
    let r = (Event::KeyRelease(release), EventStatus::Unhandled);
    let events = seq![p, r];
    let one = seq![p];
    assert(events.drop_last() =~= one);
    assert(events.last() == r);
    assert(one.drop_last() =~= Seq::<(Event, EventStatus)>::empty());
    assert(one.last() == p);
    assert(autoshift_scan(cfg, start, Seq::<(Event, EventStatus)>::empty()).0 == start);
    let (s1, evs1) = autoshift_scan(cfg, start, one);
    assert(s1 == autoshift_step(cfg, start, p).0);
    assert(s1.presses =~= seq![(press.keycode, press.ms_since_last)]);
    let presses = s1.presses;
    assert(presses.drop_last() =~= Seq::<(u32, u16)>::empty());
    assert(presses.last() == (press.keycode, press.ms_since_last));
    assert(release_reports(cfg, Seq::<(u32, u16)>::empty(), release.keycode, release.ms_since_last)
        == Seq::<Seq<u8>>::empty());
    assert(release_handled(Seq::<(u32, u16)>::empty(), release.keycode, Seq::empty())
        == Seq::<u32>::empty());
    assert(release_reports(cfg, presses, release.keycode, release.ms_since_last) =~= seq![
        autoshift_report(cfg, release.keycode, press.ms_since_last, release.ms_since_last),
    ]);
    assert(release_handled(presses, release.keycode, Seq::empty()) =~= seq![release.keycode]);
    let (s, evs) = autoshift_scan(cfg, start, events);
    assert(s.handled[0] == press.keycode);
    assert(s.reports =~= Seq::<Seq<u8>>::empty() + release_reports(
        cfg,
        presses,
        release.keycode,
        release.ms_since_last,
    ));
}

} // verus!
