//! Sends unicode characters for key codes that are unicode code points.
use vstd::prelude::*;
use crate::handlers::{Call, CallResult, lemma_prepend_call};
use crate::handlers::{HandlerResult, ProcessKeys};
use crate::key_stream::{Event, EventStatus, Key};
use crate::output::{KeyOutCatcher, OutView, unicode_reports};
use crate::state::UnicodeSendMode;

verus! {

/// Whether `x` is a unicode scalar value (a valid `char`).
pub open spec fn is_scalar_value(x: u32) -> bool {
    x <= 0x10FFFF && !(0xD800 <= x <= 0xDFFF)
}

/// `char::from_u32`: the character with code point `x`, if `x` is a
/// unicode scalar value.
#[verifier::external_body]
fn char_from_u32(x: u32) -> (r: Option<char>)
    ensures
        r is Some <==> is_scalar_value(x),
        r matches Some(c) ==> c == (x as char) && c as u32 == x,
{
    core::char::from_u32(x)
}

/// Key codes that UnicodeKeyboard sends: everything but the USB key codes
/// and the private ranges.
pub open spec fn is_unicode_code(keycode: u32) -> bool {
    !(0x100000 <= keycode <= 0x1000FF) && !(0xF0000 <= keycode <= 0xFFFFD) && !(0x1000FF
        <= keycode <= 0x10FFFD)
}

/// Law: which key codes UnicodeKeyboard sends. Every code point below the
/// private area A (U+F0000) is sent, the plane-15 noncharacters U+FFFFE and
/// U+FFFFF too, and so are the codes above U+10FFFD; the private area A
/// (U+F0000 to U+FFFFD), the USB key codes (0x100000 to 0x1000FF) and the
/// rest of the private area B (to U+10FFFD) are not. A code below 0x100000
/// stands for itself; a code above the private area B stands for the code
/// 0x100000 lower.
pub proof fn law_unicode_codes(keycode: u32)
    ensures
        is_unicode_code(keycode) <==> (keycode < 0xF0000 || 0xFFFFD < keycode < 0x100000 || keycode
            > 0x10FFFD),
        keycode < 0x100000 ==> unicode_of(keycode) == keycode,
        keycode >= 0x100000 ==> unicode_of(keycode) == keycode - 0x100000,
{
}

/// Law: UnicodeKeyboard types a character on the release of its key, and
/// only then: an unhandled press of a unicode key code is consumed without
/// output, and its release is consumed and types the character (a scalar
/// value) in the keyboard's unicode mode. Key codes it does not send, and
/// events that are not unhandled, pass as they are.
pub proof fn law_unicode_keyboard_types(mode: UnicodeSendMode, kc: Key)
    ensures
        ({
            let press = (Event::KeyPress(kc), EventStatus::Unhandled);
            let release = (Event::KeyRelease(kc), EventStatus::Unhandled);
            &&& is_unicode_code(kc.keycode) ==> unicode_step(mode, press) == (
                (press.0, EventStatus::Handled),
                Seq::<Seq<u8>>::empty(),
            )
            &&& (is_unicode_code(kc.keycode) && kc.keycode < 0xF0000 && is_scalar_value(kc.keycode))
                ==> unicode_step(mode, release) == (
                (release.0, EventStatus::Handled),
                unicode_reports(mode, kc.keycode as char),
            )
            &&& !is_unicode_code(kc.keycode) ==> unicode_step(mode, press) == (
                press,
                Seq::<Seq<u8>>::empty(),
            ) && unicode_step(mode, release) == (release, Seq::<Seq<u8>>::empty())
        }),
{
}

/// The code point a key code stands for.
pub open spec fn unicode_of(keycode: u32) -> u32 {
    if keycode < 0x100000 {
        keycode
    } else {
        (keycode - 0x100000) as u32
    }
}

/// What UnicodeKeyboard does to one event, and the reports it sends.
pub open spec fn unicode_step(mode: UnicodeSendMode, entry: (Event, EventStatus)) -> (
    (Event, EventStatus),
    Seq<Seq<u8>>,
) {
    if entry.1 != EventStatus::Unhandled {
        (entry, Seq::empty())
    } else {
        match entry.0 {
            Event::KeyPress(kc) => if is_unicode_code(kc.keycode) {
                ((entry.0, EventStatus::Handled), Seq::empty())
            } else {
                (entry, Seq::empty())
            },
            Event::KeyRelease(kc) => if is_unicode_code(kc.keycode) {
                let cp = unicode_of(kc.keycode);
                let reports = if is_scalar_value(cp) {
                    unicode_reports(mode, cp as char)
                } else {
                    Seq::empty()
                };
                ((entry.0, EventStatus::Handled), reports)
            } else {
                (entry, Seq::empty())
            },
            Event::TimeOut(_) => (entry, Seq::empty()),
        }
    }
}

/// The reports UnicodeKeyboard sends for a list of events, oldest first.
pub open spec fn unicode_run_reports(mode: UnicodeSendMode, events: Seq<(Event, EventStatus)>) -> Seq<
    Seq<u8>,
>
    decreases events.len(),
{
    if events.len() == 0 {
        Seq::empty()
    } else {
        unicode_run_reports(mode, events.drop_last()) + unicode_step(mode, events.last()).1
    }
}

/// This handler sends unicode 'characters'.
///
/// Just map your keys to unicode code points; sending happens on key
/// release (no key repeat). The private ranges of unicode are not sent,
/// but some of them are interpreted as USB key codes by USBKeyboard. Use
/// UserKey::* for totally custom keys.
pub struct UnicodeKeyboard {}

impl UnicodeKeyboard {
    pub fn new() -> (r: UnicodeKeyboard) {
        UnicodeKeyboard {}
    }

    fn is_unicode_keycode(keycode: u32) -> (r: bool)
        ensures
            r == is_unicode_code(keycode),
    {
        if 0x100000 <= keycode && keycode <= 0x1000FF {
            false  //these are the usb codes
        } else if 0xF0000 <= keycode && keycode <= 0xFFFFD {
            false  //unicode private character range A
        } else if 0x1000FF <= keycode && keycode <= 0x10FFFD {
            false  //unicode private character range b (minus those we use for usb codes)
        } else {
            true
        }
    }

    fn keycode_to_unicode(keycode: u32) -> (r: u32)
        ensures
            r == unicode_of(keycode),
    {
        if keycode < 0x100000 {
            keycode
        } else {
            keycode - 0x100000
        }
    }
}

impl ProcessKeys for UnicodeKeyboard {
    open spec fn processes(&self, events: Seq<(Event, EventStatus)>, out: OutView) -> (
        Seq<(Event, EventStatus)>,
        OutView,
        HandlerResult,
    ) {
        (
            events.map_values(|e: (Event, EventStatus)| unicode_step(out.mode, e).0),
            OutView { reports: out.reports + unicode_run_reports(out.mode, events), ..out },
            HandlerResult::NoOp,
        )
    }

    closed spec fn behaviour(&self, calls: Seq<Call>) -> Seq<CallResult>
        decreases calls.len(),
    {
        if calls.len() == 0 {
            Seq::empty()
        } else {
            seq![self.processes(calls[0].0, calls[0].1)] + self.behaviour(calls.drop_first())
        }
    }


    fn process_keys(
        &mut self,
        events: &mut Vec<(Event, EventStatus)>,
        output: &mut KeyOutCatcher,
    ) -> (r: HandlerResult)
        ensures
            r == HandlerResult::NoOp,
            final(events)@.len() == old(events)@.len(),
            forall|i: int|
                0 <= i < old(events)@.len() ==> #[trigger] final(events)@[i] == unicode_step(
                    old(output).kb().mode(),
                    old(events)@[i],
                ).0,
            final(output).report_log() == old(output).report_log() + unicode_run_reports(
                old(output).kb().mode(),
                old(events)@,
            ),
            final(output).registered() == old(output).registered(),
            final(output).debug_log() == old(output).debug_log(),
            final(output).kb() == old(output).kb(),
    {
        let ghost mode = old(output).kb().mode();
        let n = events.len();
        let mut i: usize = 0;
        while i < n
            invariant
                n == events@.len(),
                n == old(events)@.len(),
                i <= n,
                mode == old(output).kb().mode(),
                forall|j: int|
                    0 <= j < i ==> #[trigger] events@[j] == unicode_step(mode, old(events)@[j]).0,
                forall|j: int| i <= j < n ==> #[trigger] events@[j] == old(events)@[j],
                output.report_log() == old(output).report_log() + unicode_run_reports(
                    mode,
                    old(events)@.subrange(0, i as int),
                ),
                output.registered() == old(output).registered(),
                output.debug_log() == old(output).debug_log(),
                output.kb() == old(output).kb(),
            decreases n - i,
        {
            let (event, status) = events[i];
            let ghost log0 = output.report_log();
            if status == EventStatus::Unhandled {
                match event {
                    Event::KeyPress(kc) => {
                        if UnicodeKeyboard::is_unicode_keycode(kc.keycode) {
                            events.set(i, (event, EventStatus::Handled));
                        }
                    },
                    Event::KeyRelease(kc) => {
                        if UnicodeKeyboard::is_unicode_keycode(kc.keycode) {
                            let c = char_from_u32(UnicodeKeyboard::keycode_to_unicode(kc.keycode));
                            if let Some(c) = c {
                                output.send_unicode(c);
                            }
                            events.set(i, (event, EventStatus::Handled));
                        }
                    },
                    Event::TimeOut(_) => {},
                }
            }
            proof {
                let prefix = old(events)@.subrange(0, i as int);
                assert(old(events)@.subrange(0, i + 1).drop_last() =~= prefix);
                assert(old(events)@.subrange(0, i + 1).last() == old(events)@[i as int]);
                assert(output.report_log() =~= log0 + unicode_step(mode, old(events)@[i as int]).1);
            }
            i += 1;
        }
        assert(old(events)@.subrange(0, n as int) =~= old(events)@);
        assert(events@ =~= old(events)@.map_values(
            |e: (Event, EventStatus)| unicode_step(old(output).kb().mode(), e).0,
        ));
        proof {
            assert forall|calls: Seq<Call>|
                calls.len() > 0 implies #[trigger] self.behaviour(calls)[0] == self.processes(
                calls[0].0,
                calls[0].1,
            ) by {
            lemma_prepend_call(
                calls[0],
                calls.drop_first(),
                self.processes(calls[0].0, calls[0].1),
                self.behaviour(calls.drop_first()),
            );
            }
            assert forall|calls: Seq<Call>|
                calls.len() > 0 implies #[trigger] old(self).behaviour(calls)[0] == old(self).processes(
                calls[0].0,
                calls[0].1,
            ) by {
            lemma_prepend_call(
                calls[0],
                calls.drop_first(),
                old(self).processes(calls[0].0, calls[0].1),
                old(self).behaviour(calls.drop_first()),
            );
            }
            let x = (old(events)@, old(output)@);
            assert(*self == *old(self));
            assert forall|calls: Seq<Call>|
                #[trigger] self.behaviour(calls) == old(self).behaviour(seq![x] + calls).drop_first() by {
                lemma_prepend_call(x, calls, old(self).processes(x.0, x.1), self.behaviour(calls));
            }
        }
        HandlerResult::NoOp
    }

    fn default_enabled(&self) -> (r: bool) {
        true
    }

    fn oneshot_triggers(&self) -> (r: Vec<u32>) {
        Vec::new()
    }
}

} // verus!
