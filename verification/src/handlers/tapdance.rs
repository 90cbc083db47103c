//! Tap dances: count the taps on a key, then call back with the count.
use vstd::prelude::*;
use crate::handlers::{Call, CallResult, lemma_prepend_call};
use crate::handlers::{HandlerResult, ProcessKeys};
use crate::key_codes::AcceptsKeycode;
use crate::key_stream::{Event, EventStatus, Key};
use crate::output::{KeyOutCatcher, OutView};

verus! {

/// Why a tap dance ended.
#[derive(PartialEq, Eq, Structural, Debug, Clone, Copy)]
pub enum TapDanceEnd {
    Timeout,
    OtherKey,
}

/// Callbacks for completed tap dances.
pub trait TapDanceAction: Sized {
    /// What `on_tapdance` does: the callback afterwards, and the output
    /// afterwards (left unspecified by a type that does not define it).
    open spec fn tapdance_spec(self, trigger: u32, out: OutView, tap_count: u8, tap_end: TapDanceEnd) -> (
        Self,
        OutView,
    ) {
        arbitrary()
    }

    fn on_tapdance(
        &mut self,
        trigger: u32,
        output: &mut KeyOutCatcher,
        tap_count: u8,
        tap_end: TapDanceEnd,
    )
        ensures
            (*final(self), final(output)@) == old(self).tapdance_spec(
                trigger,
                old(output)@,
                tap_count,
                tap_end,
            ),
    ;
}

/// The tap count after one event: a press of the trigger adds a tap; a
/// press of another key, or a timeout of at least `timeout_ms`, ends the
/// dance (and calls back if there were taps).
pub open spec fn tap_step(trigger: u32, timeout_ms: u16, count: u8, entry: (Event, EventStatus)) -> u8 {
    if entry.1 != EventStatus::Unhandled {
        count
    } else {
        match entry.0 {
            Event::KeyPress(kc) => if kc.keycode != trigger {
                0
            } else {
                count.wrapping_add(1)
            },
            Event::KeyRelease(_) => count,
            Event::TimeOut(ms) => if count > 0 && ms >= timeout_ms {
                0
            } else {
                count
            },
        }
    }
}

/// The tap count after a list of events, oldest first.
pub open spec fn tap_run(trigger: u32, timeout_ms: u16, count: u8, events: Seq<(Event, EventStatus)>) -> u8
    decreases events.len(),
{
    if events.len() == 0 {
        count
    } else {
        tap_step(trigger, timeout_ms, tap_run(trigger, timeout_ms, count, events.drop_last()), events.last())
    }
}

/// The callback and the output after one event, given the tap count
/// before it: a dance that ends calls the callback with its count.
pub open spec fn tap_call<M: TapDanceAction>(
    trigger: u32,
    timeout_ms: u16,
    count: u8,
    st: (M, OutView),
    entry: (Event, EventStatus),
) -> (M, OutView) {
    if entry.1 != EventStatus::Unhandled {
        st
    } else {
        match entry.0 {
            Event::KeyPress(kc) => if kc.keycode != trigger && count > 0 {
                st.0.tapdance_spec(trigger, st.1, count, TapDanceEnd::OtherKey)
            } else {
                st
            },
            Event::KeyRelease(_) => st,
            Event::TimeOut(ms) => if count > 0 && ms >= timeout_ms {
                st.0.tapdance_spec(trigger, st.1, count, TapDanceEnd::Timeout)
            } else {
                st
            },
        }
    }
}

/// The callback and the output after a list of events, oldest first.
pub open spec fn tap_calls<M: TapDanceAction>(
    trigger: u32,
    timeout_ms: u16,
    count: u8,
    st: (M, OutView),
    events: Seq<(Event, EventStatus)>,
) -> (M, OutView)
    decreases events.len(),
{
    if events.len() == 0 {
        st
    } else {
        tap_call(
            trigger,
            timeout_ms,
            tap_run(trigger, timeout_ms, count, events.drop_last()),
            tap_calls(trigger, timeout_ms, count, st, events.drop_last()),
            events.last(),
        )
    }
}

/// A tap dance consumes the presses and releases of its trigger.
pub open spec fn tap_event(trigger: u32, entry: (Event, EventStatus)) -> (Event, EventStatus) {
    if entry.1 != EventStatus::Unhandled {
        entry
    } else {
        match entry.0 {
            Event::KeyPress(kc) => if kc.keycode == trigger {
                (entry.0, EventStatus::Handled)
            } else {
                entry
            },
            Event::KeyRelease(kc) => if kc.keycode == trigger {
                (entry.0, EventStatus::Handled)
            } else {
                entry
            },
            Event::TimeOut(_) => entry,
        }
    }
}

/// Counts the taps of the trigger; when another key is pressed, or after a
/// timeout of at least `timeout_ms`, the action is called with the count.
pub struct TapDance<M> {
    trigger: u32,
    tap_count: u8,
    action: M,
    timeout_ms: u16,
}

impl<M: TapDanceAction> TapDance<M> {

    /// The handler after a `process_keys` call on these events and output.
    pub closed spec fn after_run(&self, events: Seq<(Event, EventStatus)>, out: OutView) -> Self {
        let (a, o) = tap_calls(self.trigger, self.timeout_ms, self.tap_count, (self.action, out), events);
        TapDance { tap_count: tap_run(self.trigger, self.timeout_ms, self.tap_count, events), action: a, ..*self }
    }
    /// The trigger key code.
    pub closed spec fn trigger_code(self) -> u32 {
        self.trigger
    }

    /// The taps counted so far.
    pub closed spec fn taps(self) -> u8 {
        self.tap_count
    }

    /// The timeout that ends a dance.
    pub closed spec fn timeout(self) -> u16 {
        self.timeout_ms
    }

    /// The callback.
    pub closed spec fn action(self) -> M {
        self.action
    }

    pub fn new<T: AcceptsKeycode>(trigger: T, action: M, timeout_ms: u16) -> (r: TapDance<M>)
        ensures
            r.trigger_code() == trigger.keycode_spec(),
            r.taps() == 0,
            r.timeout() == timeout_ms,
            r.action() == action,
    {
        TapDance { trigger: trigger.to_u32(), tap_count: 0, action, timeout_ms }
    }
}

impl<M: TapDanceAction> ProcessKeys for TapDance<M> {
    open spec fn processes(&self, events: Seq<(Event, EventStatus)>, out: OutView) -> (
        Seq<(Event, EventStatus)>,
        OutView,
        HandlerResult,
    ) {
        (
            events.map_values(|e: (Event, EventStatus)| tap_event(self.trigger_code(), e)),
            tap_calls(self.trigger_code(), self.timeout(), self.taps(), (self.action(), out), events).1,
            HandlerResult::NoOp,
        )
    }

    closed spec fn behaviour(&self, calls: Seq<Call>) -> Seq<CallResult>
        decreases calls.len(),
    {
        if calls.len() == 0 {
            Seq::empty()
        } else {
            seq![self.processes(calls[0].0, calls[0].1)] + self.after_run(calls[0].0, calls[0].1).behaviour(calls.drop_first())
        }
    }


    fn process_keys(
        &mut self,
        events: &mut Vec<(Event, EventStatus)>,
        output: &mut KeyOutCatcher,
    ) -> (r: HandlerResult)
        ensures
            r == HandlerResult::NoOp,
            final(self).trigger_code() == old(self).trigger_code(),
            final(self).timeout() == old(self).timeout(),
            final(self).taps() == tap_run(
                old(self).trigger_code(),
                old(self).timeout(),
                old(self).taps(),
                old(events)@,
            ),
            (final(self).action(), final(output)@) == tap_calls(
                old(self).trigger_code(),
                old(self).timeout(),
                old(self).taps(),
                (old(self).action(), old(output)@),
                old(events)@,
            ),
            final(events)@.len() == old(events)@.len(),
            forall|i: int|
                0 <= i < old(events)@.len() ==> #[trigger] final(events)@[i] == tap_event(
                    old(self).trigger_code(),
                    old(events)@[i],
                ),
    {
        let n = events.len();
        let mut i: usize = 0;
        while i < n
            invariant
                n == events@.len(),
                n == old(events)@.len(),
                i <= n,
                self.trigger == old(self).trigger,
                self.timeout_ms == old(self).timeout_ms,
                self.tap_count == tap_run(
                    self.trigger,
                    self.timeout_ms,
                    old(self).tap_count,
                    old(events)@.subrange(0, i as int),
                ),
                (self.action, output@) == tap_calls(
                    self.trigger,
                    self.timeout_ms,
                    old(self).tap_count,
                    (old(self).action, old(output)@),
                    old(events)@.subrange(0, i as int),
                ),
                forall|j: int|
                    0 <= j < i ==> #[trigger] events@[j] == tap_event(self.trigger, old(events)@[j]),
                forall|j: int| i <= j < n ==> #[trigger] events@[j] == old(events)@[j],
            decreases n - i,
        {
            let (event, status) = events[i];
            if status == EventStatus::Unhandled {
                match event {
                    Event::KeyRelease(kc) => {
                        if kc.keycode == self.trigger {
                            events.set(i, (event, EventStatus::Handled));
                        }
                    },
                    Event::KeyPress(kc) => {
                        if kc.keycode != self.trigger {
                            if self.tap_count > 0 {
                                self.action.on_tapdance(
                                    self.trigger,
                                    output,
                                    self.tap_count,
                                    TapDanceEnd::OtherKey,
                                );
                                self.tap_count = 0;
                            }
                        } else {
                            self.tap_count = self.tap_count.wrapping_add(1);
                            events.set(i, (event, EventStatus::Handled));
                        }
                    },
                    Event::TimeOut(ms_since_last) => {
                        if self.tap_count > 0 && ms_since_last >= self.timeout_ms {
                            self.action.on_tapdance(
                                self.trigger,
                                output,
                                self.tap_count,
                                TapDanceEnd::Timeout,
                            );
                            self.tap_count = 0;
                        }
                    },
                }
            }
            proof {
                assert(old(events)@.subrange(0, i + 1).drop_last() =~= old(events)@.subrange(0, i as int));
                assert(old(events)@.subrange(0, i + 1).last() == old(events)@[i as int]);
            }
            i += 1;
        }
        assert(old(events)@.subrange(0, n as int) =~= old(events)@);
        assert(events@ =~= old(events)@.map_values(
            |e: (Event, EventStatus)| tap_event(old(self).trigger_code(), e),
        ));
        proof {
            assert forall|calls: Seq<Call>|
                calls.len() > 0 implies #[trigger] self.behaviour(calls)[0] == self.processes(
                calls[0].0,
                calls[0].1,
            ) by {
            lemma_prepend_call(
                calls[0],
                calls.drop_first(),
                self.processes(calls[0].0, calls[0].1),
                self.after_run(calls[0].0, calls[0].1).behaviour(calls.drop_first()),
            );
            }
            assert forall|calls: Seq<Call>|
                calls.len() > 0 implies #[trigger] old(self).behaviour(calls)[0] == old(self).processes(
                calls[0].0,
                calls[0].1,
            ) by {
            lemma_prepend_call(
                calls[0],
                calls.drop_first(),
                old(self).processes(calls[0].0, calls[0].1),
                old(self).after_run(calls[0].0, calls[0].1).behaviour(calls.drop_first()),
            );
            }
            let x = (old(events)@, old(output)@);
            assert(*self == old(self).after_run(x.0, x.1));
            assert forall|calls: Seq<Call>|
                #[trigger] self.behaviour(calls) == old(self).behaviour(seq![x] + calls).drop_first() by {
                lemma_prepend_call(x, calls, old(self).processes(x.0, x.1), self.behaviour(calls));
            }
        }
        HandlerResult::NoOp
    }

    fn default_enabled(&self) -> (r: bool) {
        true
    }

    fn oneshot_triggers(&self) -> (r: Vec<u32>) {
        Vec::new()
    }
}


/// `n` unhandled presses of the same key.
pub open spec fn presses(kc: Key, n: nat) -> Seq<(Event, EventStatus)> {
    Seq::new(n, |i: int| (Event::KeyPress(kc), EventStatus::Unhandled))
}

/// Law: a tap dance counts the presses of its trigger; the press of
/// another key ends the dance (the count starts over), and so does a
/// timeout of at least `timeout_ms` after some taps, while a shorter
/// timeout keeps the count.
pub proof fn law_tapdance_counts(trigger: u32, timeout_ms: u16, tap: Key, other: Key, ms: u16, n: nat)
    requires
        tap.keycode == trigger,
        other.keycode != trigger,
        n < 256,
    ensures
        tap_run(trigger, timeout_ms, 0, presses(tap, n)) == n,
        tap_step(
            trigger,
            timeout_ms,
            tap_run(trigger, timeout_ms, 0, presses(tap, n)),
            (Event::KeyPress(other), EventStatus::Unhandled),
        ) == 0,
        tap_step(
            trigger,
            timeout_ms,
            tap_run(trigger, timeout_ms, 0, presses(tap, n)),
            (Event::TimeOut(ms), EventStatus::Unhandled),
        ) == (if n > 0 && ms >= timeout_ms {
            0
        } else {
            n
        }),
    decreases n,
{
    if n > 0 {
        law_tapdance_counts(trigger, timeout_ms, tap, other, ms, (n - 1) as nat);
        assert(presses(tap, n).drop_last() =~= presses(tap, (n - 1) as nat));
        assert(presses(tap, n).last() == (Event::KeyPress(tap), EventStatus::Unhandled));
        let prev = tap_run(trigger, timeout_ms, 0, presses(tap, (n - 1) as nat));
        assert(prev == n - 1);
        assert(prev.wrapping_add(1) == n);
    } else {
        assert(presses(tap, 0) =~= Seq::<(Event, EventStatus)>::empty());
    }
}

} // verus!
