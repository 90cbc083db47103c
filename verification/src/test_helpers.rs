//! Helpers for testing keyboards without hardware.
use vstd::prelude::*;
use crate::handlers::{Call, CallResult, lemma_prepend_call};
use crate::handlers::{HandlerResult, OnOff, ProcessKeys};
use crate::key_codes::KeyCode;
use crate::key_stream::{Event, EventStatus};
use crate::output::{OutView, usb_bytes};
use crate::handlers::debug_handlers::{debug_lines, debug_stream_lines};
use vstd::string::StringExecFns;

pub use crate::output::KeyOutCatcher;

verus! {

/// The reports a TimeoutLogger sends for one event.
pub open spec fn timeout_reports(keycode: KeyCode, min_timeout_ms: u16, entry: (Event, EventStatus)) -> Seq<Seq<u8>> {
    if entry.1 == EventStatus::Unhandled && (entry.0 matches Event::TimeOut(ms) && ms > min_timeout_ms) {
        seq![usb_bytes(seq![keycode])]
    } else {
        Seq::empty()
    }
}

/// The reports a TimeoutLogger sends for a list of events, oldest first.
pub open spec fn timeout_run(keycode: KeyCode, min_timeout_ms: u16, events: Seq<(Event, EventStatus)>) -> Seq<Seq<u8>>
    decreases events.len(),
{
    if events.len() == 0 {
        Seq::empty()
    } else {
        timeout_run(keycode, min_timeout_ms, events.drop_last()) + timeout_reports(
            keycode,
            min_timeout_ms,
            events.last(),
        )
    }
}

/// Sends a key whenever a timeout longer than `min_timeout_ms` occurs.
pub struct TimeoutLogger {
    keycode: KeyCode,
    min_timeout_ms: u16,
}

impl TimeoutLogger {
    /// The key sent on timeouts.
    pub closed spec fn key(self) -> KeyCode {
        self.keycode
    }

    /// Timeouts up to this many ms are not logged.
    pub closed spec fn min_timeout(self) -> u16 {
        self.min_timeout_ms
    }

    pub fn new(keycode: KeyCode, min_timeout_ms: u16) -> (r: TimeoutLogger)
        ensures
            r.key() == keycode,
            r.min_timeout() == min_timeout_ms,
    {
        TimeoutLogger { keycode, min_timeout_ms }
    }
}

impl ProcessKeys for TimeoutLogger {
    open spec fn processes(&self, events: Seq<(Event, EventStatus)>, out: OutView) -> (
        Seq<(Event, EventStatus)>,
        OutView,
        HandlerResult,
    ) {
        (
            events,
            OutView {
                reports: out.reports + timeout_run(self.key(), self.min_timeout(), events),
                ..out
            },
            HandlerResult::NoOp,
        )
    }

    closed spec fn behaviour(&self, calls: Seq<Call>) -> Seq<CallResult>
        decreases calls.len(),
    {
        if calls.len() == 0 {
            Seq::empty()
        } else {
            seq![self.processes(calls[0].0, calls[0].1)] + self.behaviour(calls.drop_first())
        }
    }


    fn process_keys(
        &mut self,
        events: &mut Vec<(Event, EventStatus)>,
        output: &mut KeyOutCatcher,
    ) -> (r: HandlerResult)
        ensures
            r == HandlerResult::NoOp,
            final(events)@ == old(events)@,
            final(output).report_log() == old(output).report_log() + timeout_run(
                old(self).key(),
                old(self).min_timeout(),
                old(events)@,
            ),
            final(output).registered() == old(output).registered(),
            final(output).debug_log() == old(output).debug_log(),
            final(output).kb() == old(output).kb(),
    {
        let n = events.len();
        let mut i: usize = 0;
        while i < n
            invariant
                n == events@.len(),
                events@ == old(events)@,
                i <= n,
                *self == *old(self),
                output.report_log() == old(output).report_log() + timeout_run(
                    self.keycode,
                    self.min_timeout_ms,
                    old(events)@.subrange(0, i as int),
                ),
                output.registered() == old(output).registered(),
                output.debug_log() == old(output).debug_log(),
                output.kb() == old(output).kb(),
            decreases n - i,
        {
            let (event, status) = events[i];
            let ghost log0 = output.report_log();
            if status == EventStatus::Unhandled {
                if let Event::TimeOut(ms_since_last) = event {
                    if ms_since_last > self.min_timeout_ms {
                        output.send_keys(&[self.keycode]);
                    }
                }
            }
            proof {
                assert(old(events)@.subrange(0, i + 1).drop_last() =~= old(events)@.subrange(0, i as int));
                assert(old(events)@.subrange(0, i + 1).last() == old(events)@[i as int]);
                assert(output.report_log() =~~= log0 + timeout_reports(
                    self.keycode,
                    self.min_timeout_ms,
                    old(events)@[i as int],
                ));
            }
            i += 1;
        }
        assert(old(events)@.subrange(0, n as int) =~= old(events)@);
        proof {
            assert forall|calls: Seq<Call>|
                calls.len() > 0 implies #[trigger] self.behaviour(calls)[0] == self.processes(
                calls[0].0,
                calls[0].1,
            ) by {
            lemma_prepend_call(
                calls[0],
                calls.drop_first(),
                self.processes(calls[0].0, calls[0].1),
                self.behaviour(calls.drop_first()),
            );
            }
            assert forall|calls: Seq<Call>|
                calls.len() > 0 implies #[trigger] old(self).behaviour(calls)[0] == old(self).processes(
                calls[0].0,
                calls[0].1,
            ) by {
            lemma_prepend_call(
                calls[0],
                calls.drop_first(),
                old(self).processes(calls[0].0, calls[0].1),
                old(self).behaviour(calls.drop_first()),
            );
            }
            let x = (old(events)@, old(output)@);
            assert(*self == *old(self));
            assert forall|calls: Seq<Call>|
                #[trigger] self.behaviour(calls) == old(self).behaviour(seq![x] + calls).drop_first() by {
                lemma_prepend_call(x, calls, old(self).processes(x.0, x.1), self.behaviour(calls));
            }
        }
        HandlerResult::NoOp
    }

    fn default_enabled(&self) -> (r: bool) {
        true
    }

    fn oneshot_triggers(&self) -> (r: Vec<u32>) {
        Vec::new()
    }
}

/// Counts activations and deactivations; sends H on activation and I on
/// deactivation.
#[derive(Debug, Clone, Copy)]
pub struct PressCounter {
    pub down_counter: u8,
    pub up_counter: u8,
}

impl OnOff for PressCounter {
    open spec fn activate_spec(self, out: OutView) -> (Self, OutView) {
        (
            PressCounter { down_counter: self.down_counter.wrapping_add(1), ..self },
            OutView { reports: out.reports.push(usb_bytes(seq![KeyCode::H])), ..out },
        )
    }

    open spec fn deactivate_spec(self, out: OutView) -> (Self, OutView) {
        (
            PressCounter { up_counter: self.up_counter.wrapping_add(1), ..self },
            OutView { reports: out.reports.push(usb_bytes(seq![KeyCode::I])), ..out },
        )
    }

    fn on_activate(&mut self, output: &mut KeyOutCatcher)
        ensures
            final(self).down_counter == old(self).down_counter.wrapping_add(1),
            final(self).up_counter == old(self).up_counter,
            final(output).report_log() == old(output).report_log().push(usb_bytes(seq![KeyCode::H])),
            final(output).debug_log() == old(output).debug_log(),
            final(output).registered() == old(output).registered(),
            final(output).kb() == old(output).kb(),
    {
        self.down_counter = self.down_counter.wrapping_add(1);
        output.send_keys(&[KeyCode::H]);
        assert(output.report_log() =~~= old(output).report_log().push(usb_bytes(seq![KeyCode::H])));
    }

    fn on_deactivate(&mut self, output: &mut KeyOutCatcher)
        ensures
            final(self).up_counter == old(self).up_counter.wrapping_add(1),
            final(self).down_counter == old(self).down_counter,
            final(output).report_log() == old(output).report_log().push(usb_bytes(seq![KeyCode::I])),
            final(output).debug_log() == old(output).debug_log(),
            final(output).registered() == old(output).registered(),
            final(output).kb() == old(output).kb(),
    {
        self.up_counter = self.up_counter.wrapping_add(1);
        output.send_keys(&[KeyCode::I]);
        assert(output.report_log() =~~= old(output).report_log().push(usb_bytes(seq![KeyCode::I])));
    }
}

/// A handler that only writes debug messages: its name, then the lines of
/// the event stream as a debug stream writes them. It changes no event and
/// sends no report.
pub struct Debugger {
    s: String,
}

impl Debugger {
    /// The name the debugger writes first.
    pub closed spec fn name(self) -> Seq<char> {
        self.s@
    }

    pub fn new(s: &str) -> (r: Debugger)
        ensures
            r.name() == s@,
    {
        Debugger { s: String::from_str(s) }
    }
}

impl ProcessKeys for Debugger {
    open spec fn processes(&self, events: Seq<(Event, EventStatus)>, out: OutView) -> CallResult {
        (
            events,
            OutView { debug: out.debug.push(self.name()) + debug_lines(events), ..out },
            HandlerResult::NoOp,
        )
    }

    closed spec fn behaviour(&self, calls: Seq<Call>) -> Seq<CallResult>
        decreases calls.len(),
    {
        if calls.len() == 0 {
            Seq::empty()
        } else {
            seq![self.processes(calls[0].0, calls[0].1)] + self.behaviour(calls.drop_first())
        }
    }

    fn process_keys(
        &mut self,
        events: &mut Vec<(Event, EventStatus)>,
        output: &mut KeyOutCatcher,
    ) -> (r: HandlerResult) {
        output.debug(self.s.as_str());
        let lines = debug_stream_lines(events);
        let ghost before = output@;
        let mut i: usize = 0;
        while i < lines.len()
            invariant
                i <= lines@.len(),
                lines@.map_values(|l: String| l@) == debug_lines(events@),
                output@ == (OutView {
                    debug: before.debug + lines@.map_values(|l: String| l@).subrange(0, i as int),
                    ..before
                }),
            decreases lines@.len() - i,
        {
            let ghost d0 = output@.debug;
            output.debug(lines[i].as_str());
            assert(lines@.map_values(|l: String| l@).subrange(0, i + 1) =~= lines@.map_values(
                |l: String| l@,
            ).subrange(0, i as int).push(lines@[i as int]@));
            assert(output@.debug =~= before.debug + lines@.map_values(|l: String| l@).subrange(
                0,
                i + 1,
            ));
            i += 1;
        }
        assert(lines@.map_values(|l: String| l@).subrange(0, lines@.len() as int) =~= lines@.map_values(
            |l: String| l@,
        ));
        proof {
            assert forall|calls: Seq<Call>|
                calls.len() > 0 implies #[trigger] self.behaviour(calls)[0] == self.processes(
                calls[0].0,
                calls[0].1,
            ) by {
                lemma_prepend_call(
                    calls[0],
                    calls.drop_first(),
                    self.processes(calls[0].0, calls[0].1),
                    self.behaviour(calls.drop_first()),
                );
            }
            let x = (old(events)@, old(output)@);
            assert forall|calls: Seq<Call>|
                #[trigger] self.behaviour(calls) == old(self).behaviour(seq![x] + calls).drop_first() by {
                lemma_prepend_call(x, calls, old(self).processes(x.0, x.1), self.behaviour(calls));
            }
        }
        HandlerResult::NoOp
    }

    fn default_enabled(&self) -> (r: bool) {
        true
    }

    fn oneshot_triggers(&self) -> (r: Vec<u32>) {
        Vec::new()
    }
}

} // verus!
