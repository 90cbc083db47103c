//! Handlers that probably are only useful while building a keyboard.
use vstd::prelude::*;
use crate::handlers::{Call, CallResult, lemma_prepend_call};
use crate::handlers::{HandlerResult, ProcessKeys};
use crate::key_codes::{KeyCode, decimal, keycode_value, u32_to_decimal};
use crate::key_stream::Key;
use vstd::string::StringExecFns;
use crate::key_stream::{Event, EventStatus};
use crate::output::{KeyOutCatcher, OutView, hex_char, hex_char_keycode, law_hex_digit_keys, string_reports, usb_bytes};
use crate::state::UnicodeSendMode;

verus! {

/// The key that types the hexadecimal digit `nibble` (0-9, then A-F).
pub open spec fn nibble_keycode(nibble: u8) -> KeyCode {
    hex_char_keycode(hex_char(nibble))
}

/// Law: the key for a nibble is the key of its hex digit: 1 to 9 are the
/// USB keys 0x1E to 0x26, 0 is 0x27, and 10 to 15 are the letter keys A to F
/// (0x04 to 0x09).
pub proof fn law_nibble_keys(d: u8)
    requires
        d < 16,
    ensures
        keycode_value(nibble_keycode(d)) == (if d == 0 {
            0x100027
        } else if d < 10 {
            0x10001e + d - 1
        } else {
            0x100004 + d - 10
        }),
{
    law_hex_digit_keys(d);
}

/// The hexadecimal digit of `x` at bit position `shift`.
pub open spec fn nibble_at(x: u32, shift: u32) -> u8 {
    ((x >> shift) & 0xf) as u8
}

/// The keys that type the eight hexadecimal digits of `x`, most significant first.
pub open spec fn hex_keycodes(x: u32) -> Seq<KeyCode> {
    seq![
        nibble_keycode(nibble_at(x, 28)),
        nibble_keycode(nibble_at(x, 24)),
        nibble_keycode(nibble_at(x, 20)),
        nibble_keycode(nibble_at(x, 16)),
        nibble_keycode(nibble_at(x, 12)),
        nibble_keycode(nibble_at(x, 8)),
        nibble_keycode(nibble_at(x, 4)),
        nibble_keycode(nibble_at(x, 0)),
    ]
}

/// The key that types a hexadecimal digit.
pub fn nibble_to_keycode(nibble: u8) -> (r: KeyCode)
    requires
        nibble < 16,
    ensures
        r == nibble_keycode(nibble),
{
    match nibble {
        0 => KeyCode::Kb0,
        1 => KeyCode::Kb1,
        2 => KeyCode::Kb2,
        3 => KeyCode::Kb3,
        4 => KeyCode::Kb4,
        5 => KeyCode::Kb5,
        6 => KeyCode::Kb6,
        7 => KeyCode::Kb7,
        8 => KeyCode::Kb8,
        9 => KeyCode::Kb9,
        0xA => KeyCode::A,
        0xB => KeyCode::B,
        0xC => KeyCode::C,
        0xD => KeyCode::D,
        0xE => KeyCode::E,
        _ => KeyCode::F,
    }
}

/// The hexadecimal digit of `x` at bit position `shift`.
fn nibble_of(x: u32, shift: u32) -> (r: u8)
    requires
        shift < 32,
    ensures
        r == nibble_at(x, shift),
        r < 16,
{
    assert(((x >> shift) & 0xf) < 16) by (bit_vector);
    ((x >> shift) & 0xf) as u8
}

/// The keys that type the eight hexadecimal digits of `x`, most significant first.
pub fn transform_u32_to_keycodes(x: u32) -> (r: [KeyCode; 8])
    ensures
        r@ == hex_keycodes(x),
{
    let r = [
        nibble_to_keycode(nibble_of(x, 32 - 4)),
        nibble_to_keycode(nibble_of(x, 32 - 8)),
        nibble_to_keycode(nibble_of(x, 32 - 12)),
        nibble_to_keycode(nibble_of(x, 32 - 16)),
        nibble_to_keycode(nibble_of(x, 32 - 20)),
        nibble_to_keycode(nibble_of(x, 32 - 24)),
        nibble_to_keycode(nibble_of(x, 32 - 28)),
        nibble_to_keycode(nibble_of(x, 0)),
    ];
    assert(r@ =~= hex_keycodes(x));
    r
}

/// The reports that type each key of `keys`, each followed by an empty report.
pub open spec fn tapped(keys: Seq<KeyCode>) -> Seq<Seq<u8>>
    decreases keys.len(),
{
    if keys.len() == 0 {
        Seq::empty()
    } else {
        tapped(keys.drop_last()) + seq![usb_bytes(seq![keys.last()]), Seq::<u8>::empty()]
    }
}

/// The reports TranslationHelper sends for the release of `keycode`.
pub open spec fn translation_reports(mode: UnicodeSendMode, keycode: u32) -> Seq<Seq<u8>> {
    string_reports(mode, ".into(),"@) + seq![usb_bytes(seq![KeyCode::Enter]), Seq::<u8>::empty()]
        + tapped(hex_keycodes(keycode)) + string_reports(mode, "\tKeyCode::"@)
}

/// The reports TranslationHelper sends for a list of events, oldest first.
pub open spec fn translation_run(mode: UnicodeSendMode, events: Seq<(Event, EventStatus)>) -> Seq<Seq<u8>>
    decreases events.len(),
{
    if events.len() == 0 {
        Seq::empty()
    } else {
        let more = match events.last().0 {
            Event::KeyRelease(kc) => if events.last().1 == EventStatus::Unhandled {
                translation_reports(mode, kc.keycode)
            } else {
                Seq::empty()
            },
            _ => Seq::empty(),
        };
        translation_run(mode, events.drop_last()) + more
    }
}

/// Consumes every unhandled event.
pub open spec fn translation_event(entry: (Event, EventStatus)) -> (Event, EventStatus) {
    if entry.1 == EventStatus::Unhandled {
        (entry.0, EventStatus::Handled)
    } else {
        entry
    }
}

/// This handler helps you build a translation table for a key matrix by
/// outputting the key code observed as `.into(),<Enter>Hex-Keycode\\tKeyCode::`,
/// so you can simply enter the key name on a different keyboard after
/// pressing a key, and later sort.
pub struct TranslationHelper {}

impl TranslationHelper {
    /// Types the keys of `codes`, each followed by an empty report.
    fn tap_all(codes: &[KeyCode; 8], output: &mut KeyOutCatcher)
        ensures
            final(output).report_log() == old(output).report_log() + tapped(codes@),
            final(output).debug_log() == old(output).debug_log(),
            final(output).registered() == old(output).registered(),
            final(output).kb() == old(output).kb(),
    {
        let mut i: usize = 0;
        while i < 8
            invariant
                i <= 8,
                codes@.len() == 8,
                output.report_log() == old(output).report_log() + tapped(codes@.subrange(0, i as int)),
                output.debug_log() == old(output).debug_log(),
                output.registered() == old(output).registered(),
                output.kb() == old(output).kb(),
            decreases 8 - i,
        {
            let ghost log0 = output.report_log();
            output.send_keys(&[codes[i]]);
            output.send_empty();
            proof {
                assert(codes@.subrange(0, i + 1).drop_last() =~= codes@.subrange(0, i as int));
                assert(codes@.subrange(0, i + 1).last() == codes@[i as int]);
                assert(output.report_log() =~~= log0 + seq![usb_bytes(seq![codes@[i as int]]), Seq::<u8>::empty()]);
            }
            i += 1;
        }
        assert(codes@.subrange(0, 8) =~= codes@);
    }
}

impl ProcessKeys for TranslationHelper {
    open spec fn processes(&self, events: Seq<(Event, EventStatus)>, out: OutView) -> (
        Seq<(Event, EventStatus)>,
        OutView,
        HandlerResult,
    ) {
        (
            events.map_values(|e: (Event, EventStatus)| translation_event(e)),
            OutView { reports: out.reports + translation_run(out.mode, events), ..out },
            HandlerResult::NoOp,
        )
    }

    closed spec fn behaviour(&self, calls: Seq<Call>) -> Seq<CallResult>
        decreases calls.len(),
    {
        if calls.len() == 0 {
            Seq::empty()
        } else {
            seq![self.processes(calls[0].0, calls[0].1)] + self.behaviour(calls.drop_first())
        }
    }


    fn process_keys(
        &mut self,
        events: &mut Vec<(Event, EventStatus)>,
        output: &mut KeyOutCatcher,
    ) -> (r: HandlerResult)
        ensures
            r == HandlerResult::NoOp,
            final(events)@.len() == old(events)@.len(),
            forall|i: int|
                0 <= i < old(events)@.len() ==> #[trigger] final(events)@[i] == translation_event(
                    old(events)@[i],
                ),
            final(output).report_log() == old(output).report_log() + translation_run(
                old(output).kb().mode(),
                old(events)@,
            ),
            final(output).registered() == old(output).registered(),
            final(output).debug_log() == old(output).debug_log(),
            final(output).kb() == old(output).kb(),
    {
        let ghost mode = old(output).kb().mode();
        let n = events.len();
        let mut i: usize = 0;
        while i < n
            invariant
                n == events@.len(),
                n == old(events)@.len(),
                i <= n,
                mode == old(output).kb().mode(),
                forall|j: int| 0 <= j < i ==> #[trigger] events@[j] == translation_event(old(events)@[j]),
                forall|j: int| i <= j < n ==> #[trigger] events@[j] == old(events)@[j],
                output.report_log() == old(output).report_log() + translation_run(
                    mode,
                    old(events)@.subrange(0, i as int),
                ),
                output.registered() == old(output).registered(),
                output.debug_log() == old(output).debug_log(),
                output.kb() == old(output).kb(),
            decreases n - i,
        {
            let (event, status) = events[i];
            let ghost log0 = output.report_log();
            if status == EventStatus::Unhandled {
                events.set(i, (event, EventStatus::Handled));
                if let Event::KeyRelease(kc) = event {
                    output.send_string(".into(),");
                    output.send_keys(&[KeyCode::Enter]);
                    output.send_empty();
                    let codes = transform_u32_to_keycodes(kc.keycode);
                    TranslationHelper::tap_all(&codes, output);
                    output.send_string("\tKeyCode::");
                    assert(output.report_log() =~~= log0 + translation_reports(mode, kc.keycode));
                }
            }
            proof {
                assert(old(events)@.subrange(0, i + 1).drop_last() =~= old(events)@.subrange(0, i as int));
                assert(old(events)@.subrange(0, i + 1).last() == old(events)@[i as int]);
            }
            i += 1;
        }
        assert(old(events)@.subrange(0, n as int) =~= old(events)@);
        assert(events@ =~= old(events)@.map_values(|e: (Event, EventStatus)| translation_event(e)));
        proof {
            assert forall|calls: Seq<Call>|
                calls.len() > 0 implies #[trigger] self.behaviour(calls)[0] == self.processes(
                calls[0].0,
                calls[0].1,
            ) by {
            lemma_prepend_call(
                calls[0],
                calls.drop_first(),
                self.processes(calls[0].0, calls[0].1),
                self.behaviour(calls.drop_first()),
            );
            }
            assert forall|calls: Seq<Call>|
                calls.len() > 0 implies #[trigger] old(self).behaviour(calls)[0] == old(self).processes(
                calls[0].0,
                calls[0].1,
            ) by {
            lemma_prepend_call(
                calls[0],
                calls.drop_first(),
                old(self).processes(calls[0].0, calls[0].1),
                old(self).behaviour(calls.drop_first()),
            );
            }
            let x = (old(events)@, old(output)@);
            assert(*self == *old(self));
            assert forall|calls: Seq<Call>|
                #[trigger] self.behaviour(calls) == old(self).behaviour(seq![x] + calls).drop_first() by {
                lemma_prepend_call(x, calls, old(self).processes(x.0, x.1), self.behaviour(calls));
            }
        }
        HandlerResult::NoOp
    }

    fn default_enabled(&self) -> (r: bool) {
        true
    }

    fn oneshot_triggers(&self) -> (r: Vec<u32>) {
        Vec::new()
    }
}


/// The line a debug stream writes for a key event: the event's opening
/// text, then the key's code, milliseconds, running number and flag.
pub open spec fn key_line(prefix: Seq<char>, kc: Key) -> Seq<char> {
    prefix + decimal(kc.keycode as nat) + ", "@ + decimal(kc.ms_since_last as nat) + ", "@
        + decimal(kc.running_number as nat) + ", "@ + decimal(kc.flag as nat) + ")"@
}

/// The line a debug stream writes for an event's status.
pub open spec fn status_line(status: EventStatus) -> Seq<char> {
    match status {
        EventStatus::Handled => "EventStatus::Handled),"@,
        EventStatus::Unhandled => "EventStatus::Unhandled),"@,
        EventStatus::Ignored => "EventStatus::Ignored),"@,
    }
}

/// The lines a debug stream writes for one event: the key line, then the
/// status line; nothing for a timeout.
pub open spec fn event_lines(entry: (Event, EventStatus)) -> Seq<Seq<char>> {
    match entry.0 {
        Event::KeyPress(kc) => seq![key_line("\t(Event::KeyPress(Key::new("@, kc), status_line(entry.1)],
        Event::KeyRelease(kc) => seq![
            key_line("\t(Event::KeyRelease(Key::new("@, kc),
            status_line(entry.1),
        ],
        Event::TimeOut(_) => Seq::empty(),
    }
}

/// The lines for a list of events, in order.
pub open spec fn events_lines(events: Seq<(Event, EventStatus)>) -> Seq<Seq<char>>
    decreases events.len(),
{
    if events.len() == 0 {
        Seq::empty()
    } else {
        events_lines(events.drop_last()) + event_lines(events.last())
    }
}

/// What a debug stream writes for the events: nothing for no events,
/// otherwise an opening line, then the lines of each event.
pub open spec fn debug_lines(events: Seq<(Event, EventStatus)>) -> Seq<Seq<char>> {
    if events.len() == 0 {
        Seq::empty()
    } else {
        seq!["[\n"@] + events_lines(events)
    }
}

fn key_line_string(prefix: &str, kc: Key) -> (r: String)
    ensures
        r@ == key_line(prefix@, kc),
{
    let mut line = String::from_str(prefix);
    let code = u32_to_decimal(kc.keycode);
    line.append(code.as_str());
    line.append(", ");
    let ms = u32_to_decimal(kc.ms_since_last as u32);
    line.append(ms.as_str());
    line.append(", ");
    let running = u32_to_decimal(kc.running_number as u32);
    line.append(running.as_str());
    line.append(", ");
    let flag = u32_to_decimal(kc.flag as u32);
    line.append(flag.as_str());
    line.append(")");
    line
}

fn status_line_string(status: EventStatus) -> (r: String)
    ensures
        r@ == status_line(status),
{
    match status {
        EventStatus::Handled => String::from_str("EventStatus::Handled),"),
        EventStatus::Unhandled => String::from_str("EventStatus::Unhandled),"),
        EventStatus::Ignored => String::from_str("EventStatus::Ignored),"),
    }
}

/// The text lines a debug stream writes for a key stream, one call of the
/// writer each: none for an empty stream; otherwise "[\n", then for each
/// key event its key and its status (timeouts are omitted).
pub fn debug_stream_lines(events: &Vec<(Event, EventStatus)>) -> (r: Vec<String>)
    ensures
        r@.map_values(|l: String| l@) == debug_lines(events@),
{
    let mut lines: Vec<String> = Vec::new();
    if events.len() == 0 {
        assert(lines@.map_values(|l: String| l@) =~= debug_lines(events@));
        return lines;
    }
    lines.push(String::from_str("[\n"));
    let mut i: usize = 0;
    while i < events.len()
        invariant
            i <= events@.len(),
            events@.len() > 0,
            lines@.map_values(|l: String| l@) == seq!["[\n"@] + events_lines(events@.subrange(0, i as int)),
        decreases events@.len() - i,
    {
        let (event, status) = events[i];
        let ghost before = lines@.map_values(|l: String| l@);
        match event {
            Event::KeyPress(kc) => {
                lines.push(key_line_string("\t(Event::KeyPress(Key::new(", kc));
                lines.push(status_line_string(status));
            },
            Event::KeyRelease(kc) => {
                lines.push(key_line_string("\t(Event::KeyRelease(Key::new(", kc));
                lines.push(status_line_string(status));
            },
            Event::TimeOut(_) => {},
        }
        proof {
            let sub = events@.subrange(0, i + 1);
            assert(sub.drop_last() =~= events@.subrange(0, i as int));
            assert(sub.last() == events@[i as int]);
            assert(lines@.map_values(|l: String| l@) =~= before + event_lines(events@[i as int]));
        }
        i += 1;
    }
    assert(events@.subrange(0, events@.len() as int) =~= events@);
    lines
}

} // verus!
