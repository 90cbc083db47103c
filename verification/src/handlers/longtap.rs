//! Long taps: one action on a short tap, another on a long one.
use vstd::prelude::*;
use crate::handlers::{Call, CallResult, lemma_prepend_call};
use crate::handlers::{Action, HandlerResult, ProcessKeys};
use crate::handlers::macros::consume_trigger;
use crate::key_codes::AcceptsKeycode;
use crate::key_stream::{Event, EventStatus};
use crate::output::{KeyOutCatcher, OutView};

verus! {

/// The actions and the output after one event: a release of the trigger
/// calls the long action if it came at least `threshold_ms` after the
/// previous event, the short action otherwise.
pub open spec fn longtap_call<M1: Action, M2: Action>(
    trigger: u32,
    threshold_ms: u16,
    cb: (M1, M2, OutView),
    entry: (Event, EventStatus),
) -> (M1, M2, OutView) {
    if entry.1 == EventStatus::Unhandled && (entry.0 matches Event::KeyRelease(kc) && kc.keycode
        == trigger) {
        if entry.0->KeyRelease_0.ms_since_last >= threshold_ms {
            let (l, o) = cb.1.trigger_spec(cb.2);
            (cb.0, l, o)
        } else {
            let (sh, o) = cb.0.trigger_spec(cb.2);
            (sh, cb.1, o)
        }
    } else {
        cb
    }
}

/// The actions and the output after a list of events, taken newest first.
pub open spec fn longtap_calls<M1: Action, M2: Action>(
    trigger: u32,
    threshold_ms: u16,
    cb: (M1, M2, OutView),
    events: Seq<(Event, EventStatus)>,
) -> (M1, M2, OutView)
    decreases events.len(),
{
    if events.len() == 0 {
        cb
    } else {
        longtap_call(
            trigger,
            threshold_ms,
            longtap_calls(trigger, threshold_ms, cb, events.subrange(1, events.len() as int)),
            events[0],
        )
    }
}

/// A handler that does one thing on a short tap, and another on a long tap
/// with a configurable threshold. The action happens on release.
///
/// This is a simple implementation that considers the time since the last
/// key event, without considering whether that was actually the press of
/// the LongTap key.
pub struct LongTap<M1, M2> {
    trigger: u32,
    action_short: M1,
    action_long: M2,
    threshold_ms: u16,
}

impl<M1: Action, M2: Action> LongTap<M1, M2> {

    /// The handler after a `process_keys` call on these events and output.
    pub closed spec fn after_run(&self, events: Seq<(Event, EventStatus)>, out: OutView) -> Self {
        let (sh, l, o) = longtap_calls(
            self.trigger,
            self.threshold_ms,
            (self.action_short, self.action_long, out),
            events,
        );
        LongTap { action_short: sh, action_long: l, ..*self }
    }
    /// The trigger key code.
    pub closed spec fn trigger_code(self) -> u32 {
        self.trigger
    }

    /// Releases at least this many ms after the previous event are long taps.
    pub closed spec fn threshold(self) -> u16 {
        self.threshold_ms
    }

    /// The short and the long action.
    pub closed spec fn actions(self) -> (M1, M2) {
        (self.action_short, self.action_long)
    }

    pub fn new<T: AcceptsKeycode>(trigger: T, action_short: M1, action_long: M2, threshold_ms: u16) -> (r:
        LongTap<M1, M2>)
        ensures
            r.trigger_code() == trigger.keycode_spec(),
            r.threshold() == threshold_ms,
            r.actions() == (action_short, action_long),
    {
        LongTap { trigger: trigger.to_u32(), action_short, action_long, threshold_ms }
    }
}

impl<M1: Action, M2: Action> ProcessKeys for LongTap<M1, M2> {
    open spec fn processes(&self, events: Seq<(Event, EventStatus)>, out: OutView) -> (
        Seq<(Event, EventStatus)>,
        OutView,
        HandlerResult,
    ) {
        (
            events.map_values(|e: (Event, EventStatus)| consume_trigger(self.trigger_code(), e)),
            longtap_calls(
                self.trigger_code(),
                self.threshold(),
                (self.actions().0, self.actions().1, out),
                events,
            ).2,
            HandlerResult::NoOp,
        )
    }

    closed spec fn behaviour(&self, calls: Seq<Call>) -> Seq<CallResult>
        decreases calls.len(),
    {
        if calls.len() == 0 {
            Seq::empty()
        } else {
            seq![self.processes(calls[0].0, calls[0].1)] + self.after_run(calls[0].0, calls[0].1).behaviour(calls.drop_first())
        }
    }


    /// Consumes the presses and releases of the trigger (newest first);
    /// a release calls the long action if it came at least the threshold
    /// after the previous event, the short action otherwise.
    fn process_keys(
        &mut self,
        events: &mut Vec<(Event, EventStatus)>,
        output: &mut KeyOutCatcher,
    ) -> (r: HandlerResult)
        ensures
            r == HandlerResult::NoOp,
            final(self).trigger_code() == old(self).trigger_code(),
            final(self).threshold() == old(self).threshold(),
            ({
                let (sh, l, o) = longtap_calls(
                    old(self).trigger_code(),
                    old(self).threshold(),
                    (old(self).actions().0, old(self).actions().1, old(output)@),
                    old(events)@,
                );
                &&& final(self).actions() == (sh, l)
                &&& final(output)@ == o
            }),
            final(events)@.len() == old(events)@.len(),
            forall|i: int|
                0 <= i < old(events)@.len() ==> #[trigger] final(events)@[i] == consume_trigger(
                    old(self).trigger_code(),
                    old(events)@[i],
                ),
    {
        let n = events.len();
        let mut i = n;
        while i > 0
            invariant
                n == events@.len(),
                n == old(events)@.len(),
                i <= n,
                self.trigger == old(self).trigger,
                self.threshold_ms == old(self).threshold_ms,
                (self.action_short, self.action_long, output@) == longtap_calls(
                    self.trigger,
                    self.threshold_ms,
                    (old(self).action_short, old(self).action_long, old(output)@),
                    old(events)@.subrange(i as int, n as int),
                ),
                forall|j: int|
                    i <= j < n ==> #[trigger] events@[j] == consume_trigger(self.trigger, old(events)@[j]),
                forall|j: int| 0 <= j < i ==> #[trigger] events@[j] == old(events)@[j],
            decreases i,
        {
            i -= 1;
            proof {
                let full = old(events)@.subrange(i as int, n as int);
                assert(full.subrange(1, full.len() as int) =~= old(events)@.subrange(i + 1, n as int));
                assert(full[0] == old(events)@[i as int]);
            }
            let (event, status) = events[i];
            if status == EventStatus::Unhandled {
                match event {
                    Event::KeyRelease(kc) => {
                        if kc.keycode == self.trigger {
                            events.set(i, (event, EventStatus::Handled));
                            if kc.ms_since_last >= self.threshold_ms {
                                self.action_long.on_trigger(output);
                            } else {
                                self.action_short.on_trigger(output);
                            }
                        }
                    },
                    Event::KeyPress(kc) => {
                        if kc.keycode == self.trigger {
                            events.set(i, (event, EventStatus::Handled));
                        }
                    },
                    _ => {},
                }
            }
        }
        assert(old(events)@.subrange(0, n as int) =~= old(events)@);
        assert(events@ =~= old(events)@.map_values(
            |e: (Event, EventStatus)| consume_trigger(old(self).trigger_code(), e),
        ));
        proof {
            assert forall|calls: Seq<Call>|
                calls.len() > 0 implies #[trigger] self.behaviour(calls)[0] == self.processes(
                calls[0].0,
                calls[0].1,
            ) by {
            lemma_prepend_call(
                calls[0],
                calls.drop_first(),
                self.processes(calls[0].0, calls[0].1),
                self.after_run(calls[0].0, calls[0].1).behaviour(calls.drop_first()),
            );
            }
            assert forall|calls: Seq<Call>|
                calls.len() > 0 implies #[trigger] old(self).behaviour(calls)[0] == old(self).processes(
                calls[0].0,
                calls[0].1,
            ) by {
            lemma_prepend_call(
                calls[0],
                calls.drop_first(),
                old(self).processes(calls[0].0, calls[0].1),
                old(self).after_run(calls[0].0, calls[0].1).behaviour(calls.drop_first()),
            );
            }
            let x = (old(events)@, old(output)@);
            assert(*self == old(self).after_run(x.0, x.1));
            assert forall|calls: Seq<Call>|
                #[trigger] self.behaviour(calls) == old(self).behaviour(seq![x] + calls).drop_first() by {
                lemma_prepend_call(x, calls, old(self).processes(x.0, x.1), self.behaviour(calls));
            }
        }
        HandlerResult::NoOp
    }

    fn default_enabled(&self) -> (r: bool) {
        true
    }

    fn oneshot_triggers(&self) -> (r: Vec<u32>) {
        Vec::new()
    }
}

} // verus!
