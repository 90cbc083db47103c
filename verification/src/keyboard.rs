//! The keyboard: the queue of events, the handlers, and the output.
use vstd::prelude::*;
use crate::handlers::{Call, HandlerResult, ProcessKeys};
use crate::key_codes::AcceptsKeycode;
use crate::key_stream::{Event, EventStatus, Key};
use crate::output::{KeyOutCatcher, OutView};
use crate::state::{ABORT_BIT, HandlerID, KEYBOARD_STATE_RESERVED_BITS, reset_reserved};

verus! {

/// Whether an event survives `handle_keys`: it is not Handled and not a timeout.
pub open spec fn survives_handling(entry: (Event, EventStatus)) -> bool {
    entry.1 != EventStatus::Handled && !(entry.0 is TimeOut)
}

/// The events with every status reset to Unhandled.
pub open spec fn all_unhandled(events: Seq<(Event, EventStatus)>) -> Seq<(Event, EventStatus)> {
    events.map_values(|e: (Event, EventStatus)| (e.0, EventStatus::Unhandled))
}

/// The events that survive handling, in order.
pub open spec fn survivors(events: Seq<(Event, EventStatus)>) -> Seq<(Event, EventStatus)>
    decreases events.len(),
{
    if events.len() == 0 {
        Seq::empty()
    } else {
        let rest = survivors(events.drop_last());
        if survives_handling(events.last()) {
            rest.push(events.last())
        } else {
            rest
        }
    }
}

/// The events and the output after the handlers from position `i` on ran,
/// each while its bit in the state is set: a handler that returns Disable
/// is turned off, and a handler that sets the abort signal stops the run
/// (the signal is cleared, and so are the events and the modifiers).
pub open spec fn run_handlers<'a>(
    handlers: Seq<Box<dyn ProcessKeys + 'a>>,
    i: int,
    events: Seq<(Event, EventStatus)>,
    out: OutView,
) -> (Seq<(Event, EventStatus)>, OutView)
    decreases handlers.len() - i,
{
    if i < 0 || i >= handlers.len() {
        (events, out)
    } else {
        let bit = i + KEYBOARD_STATE_RESERVED_BITS;
        if bit < out.flags.len() && out.flags[bit] {
            let (evs, o, r) = handlers[i].processes(events, out);
            let o2 = if r == HandlerResult::Disable && bit < o.flags.len() {
                OutView { flags: o.flags.update(bit, false), ..o }
            } else {
                o
            };
            if o2.flags[ABORT_BIT as int] {
                (Seq::empty(), OutView { flags: reset_reserved(o2.flags), ..o2 })
            } else {
                run_handlers(handlers, i + 1, evs, o2)
            }
        } else {
            run_handlers(handlers, i + 1, events, out)
        }
    }
}

/// What each handler from position `i` on is handed when the handlers run
/// (see `run_handlers`): the events and the output of its call, or None if
/// it does not run (it is disabled, or an earlier handler aborted).
pub open spec fn run_inputs<'a>(
    handlers: Seq<Box<dyn ProcessKeys + 'a>>,
    i: int,
    events: Seq<(Event, EventStatus)>,
    out: OutView,
) -> Seq<Option<Call>>
    decreases handlers.len() - i,
{
    if i < 0 || i >= handlers.len() {
        Seq::empty()
    } else {
        let bit = i + KEYBOARD_STATE_RESERVED_BITS;
        if bit < out.flags.len() && out.flags[bit] {
            let (evs, o, r) = handlers[i].processes(events, out);
            let o2 = if r == HandlerResult::Disable && bit < o.flags.len() {
                OutView { flags: o.flags.update(bit, false), ..o }
            } else {
                o
            };
            if o2.flags[ABORT_BIT as int] {
                seq![Some((events, out))] + Seq::new(
                    (handlers.len() - i - 1) as nat,
                    |k: int| None::<Call>,
                )
            } else {
                seq![Some((events, out))] + run_inputs(handlers, i + 1, evs, o2)
            }
        } else {
            seq![None] + run_inputs(handlers, i + 1, events, out)
        }
    }
}

/// There is one input per handler from position `i` on.
pub proof fn lemma_run_inputs_len<'a>(
    handlers: Seq<Box<dyn ProcessKeys + 'a>>,
    i: int,
    events: Seq<(Event, EventStatus)>,
    out: OutView,
)
    requires
        0 <= i <= handlers.len(),
    ensures
        run_inputs(handlers, i, events, out).len() == handlers.len() - i,
    decreases handlers.len() - i,
{
    if i < handlers.len() {
        let bit = i + KEYBOARD_STATE_RESERVED_BITS;
        if bit < out.flags.len() && out.flags[bit] {
            let (evs, o, r) = handlers[i].processes(events, out);
            let o2 = if r == HandlerResult::Disable && bit < o.flags.len() {
                OutView { flags: o.flags.update(bit, false), ..o }
            } else {
                o
            };
            lemma_run_inputs_len(handlers, i + 1, evs, o2);
        } else {
            lemma_run_inputs_len(handlers, i + 1, events, out);
        }
    }
}

/// Whether handler `i` of `after` is handler `i` of `before` after the
/// run it got in `input`: if it ran on a call, it does on further calls
/// what it would have done after that call; if it did not run, it is
/// unchanged.
pub open spec fn ran_as<'a>(
    before: Seq<Box<dyn ProcessKeys + 'a>>,
    after: Seq<Box<dyn ProcessKeys + 'a>>,
    i: int,
    input: Option<Call>,
) -> bool {
    &&& input is None ==> after[i] == before[i]
    &&& input is Some ==> forall|calls: Seq<Call>|
        #[trigger] after[i].behaviour(calls) == before[i].behaviour(seq![input->0] + calls).drop_first()
}

/// Pushing onto a sequence makes it one longer.
proof fn lemma_push_len<A>(s: Seq<A>, a: A)
    ensures
        s.push(a).len() == s.len() + 1,
{
}

/// What is pushed onto a sequence is its last element.
proof fn lemma_push_last<A>(s: Seq<A>, a: A)
    ensures
        s.push(a)[s.len() as int] == a,
{
}

/// The events that are not Unhandled, in order.
pub open spec fn without_unhandled(events: Seq<(Event, EventStatus)>) -> Seq<(Event, EventStatus)>
    decreases events.len(),
{
    if events.len() == 0 {
        Seq::empty()
    } else {
        let rest = without_unhandled(events.drop_last());
        if events.last().1 != EventStatus::Unhandled {
            rest.push(events.last())
        } else {
            rest
        }
    }
}

/// The events after `add_timeout(ms_since_last)`: a timeout at the end is
/// replaced, otherwise the timeout is appended.
pub open spec fn with_timeout(events: Seq<(Event, EventStatus)>, ms_since_last: u16) -> Seq<(Event, EventStatus)> {
    (if events.len() > 0 && events.last().0 is TimeOut {
        events.drop_last()
    } else {
        events
    }).push((Event::TimeOut(ms_since_last), EventStatus::Unhandled))
}

/// Law: consecutive timeouts collapse into the last one.
pub proof fn law_timeouts_collapse(events: Seq<(Event, EventStatus)>, first: u16, second: u16)
    ensures
        with_timeout(with_timeout(events, first), second) == with_timeout(events, second),
{
    let once = with_timeout(events, first);
    assert(once.drop_last() =~= (if events.len() > 0 && events.last().0 is TimeOut {
        events.drop_last()
    } else {
        events
    }));
}

/// Law: after clearing the unhandled events none is left, the other
/// events keep their order, and clearing again changes nothing.
pub proof fn law_clear_unhandled(events: Seq<(Event, EventStatus)>)
    ensures
        forall|i: int|
            0 <= i < without_unhandled(events).len() ==> (#[trigger] without_unhandled(events)[i]).1
                != EventStatus::Unhandled,
        without_unhandled(without_unhandled(events)) == without_unhandled(events),
        forall|i: int|
            0 <= i < events.len() && events[i].1 != EventStatus::Unhandled ==> without_unhandled(
                events,
            ).contains(#[trigger] events[i]),
    decreases events.len(),
{
    if events.len() > 0 {
        let rest = events.drop_last();
        law_clear_unhandled(rest);
        let w = without_unhandled(rest);
        if events.last().1 != EventStatus::Unhandled {
            let ww = w.push(events.last());
            assert(ww.drop_last() =~= w);
            assert forall|i: int| 0 <= i < ww.len() implies (#[trigger] ww[i]).1 != EventStatus::Unhandled by {
                if i < w.len() {
                    assert(ww[i] == w[i]);
                }
            }
            assert forall|i: int|
                0 <= i < events.len() && events[i].1 != EventStatus::Unhandled implies ww.contains(
                #[trigger] events[i],
            ) by {
                if i < rest.len() {
                    assert(rest[i] == events[i]);
                    let k = choose|k: int| 0 <= k < w.len() && w[k] == rest[i];
                    assert(ww[k] == events[i]);
                } else {
                    assert(ww[w.len() as int] == events[i]);
                }
            }
        } else {
            assert forall|i: int|
                0 <= i < events.len() && events[i].1 != EventStatus::Unhandled implies w.contains(
                #[trigger] events[i],
            ) by {
                assert(i < rest.len());
                assert(rest[i] == events[i]);
            }
        }
    }
}

/// The key event that `add_keypress` / `add_keyrelease` create.
pub open spec fn new_key(keycode: u32, ms_since_last: u16, running_number: u8) -> Key {
    Key {
        keycode: keycode,
        original_keycode: keycode,
        ms_since_last: ms_since_last,
        running_number: running_number,
        flag: 0,
    }
}

/// A request made of the keyboard: an event added, a run of the handlers,
/// or the removal of the unhandled events.
pub ghost enum KeyboardCall {
    Press(u32, u16),
    Release(u32, u16),
    Timeout(u16),
    Handle,
    ClearUnhandled,
}

/// The main keyboard struct.
///
/// Add handlers with `add_handler`, then call `add_keypress`,
/// `add_keyrelease` or `add_timeout` followed by `handle_keys`.
pub struct Keyboard<'a> {
    pub events: Vec<(Event, EventStatus)>,
    running_number: u8,
    handlers: Vec<Box<dyn ProcessKeys + 'a>>,
    pub output: KeyOutCatcher,
    calls: Ghost<Seq<KeyboardCall>>,
}

impl<'a> Keyboard<'a> {
    /// The queued events with their status.
    pub closed spec fn event_log(self) -> Seq<(Event, EventStatus)> {
        self.events@
    }

    /// The output: reports sent so far and the keyboard state.
    pub closed spec fn out(self) -> KeyOutCatcher {
        self.output
    }

    /// The number of the next key event.
    pub closed spec fn running(self) -> u8 {
        self.running_number
    }

    /// The events added, handler runs and clean ups asked of the keyboard,
    /// oldest first.
    pub closed spec fn call_log(self) -> Seq<KeyboardCall> {
        self.calls@
    }

    /// How many handlers have been added.
    pub closed spec fn handler_count(self) -> nat {
        self.handlers@.len()
    }

    /// The number of handlers is the length of the handler list.
    pub proof fn lemma_handler_count(self)
        ensures
            self.handler_count() == self.handler_list().len(),
    {
    }

    /// The handlers, in the order they were added.
    pub closed spec fn handler_list(self) -> Seq<Box<dyn ProcessKeys + 'a>> {
        self.handlers@
    }

    pub fn new(output: KeyOutCatcher) -> (r: Keyboard<'a>)
        ensures
            r.event_log() == Seq::<(Event, EventStatus)>::empty(),
            r.out() == output,
            r.running() == 0,
            r.handler_count() == 0,
            r.handler_list() == Seq::<Box<dyn ProcessKeys + 'a>>::empty(),
            r.call_log() == Seq::<KeyboardCall>::empty(),
    {
        Keyboard {
            events: Vec::new(),
            running_number: 0,
            handlers: Vec::new(),
            output,
            calls: Ghost(Seq::empty()),
        }
    }

    /// Add a handler; returns its HandlerID, which you may use with
    /// `keyboard.output.state().enable_handler` / `disable_handler` /
    /// `toggle_handler` / `is_handler_enabled`.
    ///
    /// By default, most handlers start in the enabled state (with the
    /// notable exception of layers).
    pub fn add_handler(&mut self, handler: Box<dyn ProcessKeys + 'a>) -> (r: HandlerID)
        requires
            old(self).out().kb().flags().len() < 0x1000_0000,
        ensures
            r == old(self).out().kb().flags().len(),
            final(self).out().kb().flags().len() == r + 1,
            final(self).out().kb().flags() == old(self).out().kb().flags().push(
                handler.starts_enabled(),
            ),
            final(self).out().kb().oneshot_triggers() == old(self).out().kb().oneshot_triggers()
                + handler.trigger_codes(),
            final(self).handler_list() == old(self).handler_list().push(handler),
            final(self).handler_count() == old(self).handler_count() + 1,
            final(self).out().kb().flags()[r as int] == handler.starts_enabled(),
            final(self).out().kb().mode() == old(self).out().kb().mode(),
            final(self).out().report_log() == old(self).out().report_log(),
            final(self).out().registered() == old(self).out().registered(),
            final(self).event_log() == old(self).event_log(),
            final(self).running() == old(self).running(),
            final(self).call_log() == old(self).call_log(),
    {
        let enabled = handler.default_enabled();
        let triggers = handler.oneshot_triggers();
        let ghost before = self.handlers@;
        self.handlers.push(handler);
        assert(self.handlers@ == before.push(handler));
        proof {
            lemma_push_len(before, handler);
        }
        assert(self.handlers@.len() == before.len() + 1);
        self.output.state().push_handler(enabled);
        self.output.state().add_oneshot_triggers(&triggers);
        let len = self.output.ro_state().len();
        proof {
            lemma_push_last(old(self).output.kb().flags(), enabled);
        }
        len - 1
    }

    /// Predict the next or further out handler ids returned by add_handler;
    /// needed to add space cadets before the layers they toggle.
    pub fn future_handler_id(&self, offset: usize) -> (r: HandlerID)
        requires
            self.out().kb().flags().len() - 1 + offset <= usize::MAX,
        ensures
            r == self.out().kb().flags().len() - 1 + offset,
    {
        let current = self.output.ro_state().len() - 1;
        current + offset
    }

    /// Handle an update to the event stream.
    ///
    /// All events are marked Unhandled, then every enabled handler runs in
    /// the order they were added. A handler that returns Disable is turned
    /// off; a handler that sets the abort signal stops the handling,
    /// clears all events and resets the modifiers. Afterwards handled events and timeouts are
    /// removed. The handlers keep their order; each handler that ran does on
    /// later calls what it would have done after this run, the others stay
    /// as they were.
    ///
    /// This returns Ok(()) if all keys are handled by the handlers and an
    /// Err(()) otherwise, so the downstream can decide what to do
    /// (tests: panic; firmware: drop unhandled events).
    pub fn handle_keys(&mut self) -> (r: Result<(), ()>)
        ensures
            ({
                let (evs, out) = run_handlers(
                    old(self).handler_list(),
                    0,
                    all_unhandled(old(self).event_log()),
                    old(self).out()@,
                );
                &&& final(self).event_log() == survivors(evs)
                &&& final(self).out()@ == out
            }),
            forall|i: int|
                0 <= i < final(self).event_log().len() ==> survives_handling(
                    #[trigger] final(self).event_log()[i],
                ),
            r is Ok <==> forall|i: int|
                0 <= i < final(self).event_log().len() ==> (#[trigger] final(self).event_log()[i]).1
                    == EventStatus::Ignored,
            final(self).handler_count() == old(self).handler_count(),
            forall|i: int|
                0 <= i < old(self).handler_count() ==> #[trigger] ran_as(
                    old(self).handler_list(),
                    final(self).handler_list(),
                    i,
                    run_inputs(
                        old(self).handler_list(),
                        0,
                        all_unhandled(old(self).event_log()),
                        old(self).out()@,
                    )[i],
                ),
            final(self).running() == old(self).running(),
            final(self).call_log() == old(self).call_log().push(KeyboardCall::Handle),
    {
        let n_events = self.events.len();
        let mut i: usize = 0;
        while i < n_events
            invariant
                n_events == self.events@.len(),
                n_events == old(self).events@.len(),
                i <= n_events,
                self.running_number == old(self).running_number,
                self.calls == old(self).calls,
                self.handlers@ == old(self).handlers@,
                self.output == old(self).output,
                forall|j: int| 0 <= j < i ==> #[trigger] self.events@[j] == (
                    old(self).events@[j].0,
                    EventStatus::Unhandled,
                ),
                forall|j: int| i <= j < n_events ==> #[trigger] self.events@[j] == old(self).events@[j],
            decreases n_events - i,
        {
            let event = self.events[i].0;
            self.events.set(i, (event, EventStatus::Unhandled));
            i += 1;
        }
        assert(self.events@ =~= all_unhandled(old(self).events@));
        let ghost handlers0 = old(self).handlers@;
        let ghost full = run_handlers(handlers0, 0, self.events@, self.output@);
        let ghost inputs = run_inputs(handlers0, 0, self.events@, self.output@);
        let ghost mut done: Seq<Option<Call>> = Seq::empty();
        proof {
            lemma_run_inputs_len(handlers0, 0, self.events@, self.output@);
            assert(inputs =~= done + run_inputs(handlers0, 0, self.events@, self.output@));
        }
        //skip the modifiers
        let n = self.handlers.len();
        let mut ii: usize = 0;
        while ii < n
            invariant_except_break
                full == run_handlers(handlers0, ii as int, self.events@, self.output@),
                forall|j: int| ii <= j < n ==> #[trigger] self.handlers@[j] == handlers0[j],
                done.len() == ii,
                inputs == done + run_inputs(handlers0, ii as int, self.events@, self.output@),
                forall|j: int| 0 <= j < ii ==> #[trigger] ran_as(handlers0, self.handlers@, j, done[j]),
            invariant
                n == self.handlers@.len(),
                n == handlers0.len(),
                ii <= n,
                self.running_number == old(self).running_number,
                self.calls == old(self).calls,
                inputs.len() == n,
            ensures
                full == (self.events@, self.output@),
                forall|j: int| 0 <= j < n ==> #[trigger] ran_as(handlers0, self.handlers@, j, inputs[j]),
            decreases n - ii,
        {
            let ghost events_before = self.events@;
            let ghost out_before = self.output@;
            let ghost handlers_before = self.handlers@;
            proof {
                lemma_run_inputs_len(handlers0, ii + 1, self.events@, self.output@);
            }
            let len = self.output.ro_state().len();
            if ii < len - KEYBOARD_STATE_RESERVED_BITS
                && self.output.ro_state().is_handler_enabled(ii + KEYBOARD_STATE_RESERVED_BITS) {
                let result = self.handlers[ii].process_keys(&mut self.events, &mut self.output);
                match result {
                    HandlerResult::NoOp => {},
                    HandlerResult::Disable => {
                        let len = self.output.ro_state().len();
                        if ii < len - KEYBOARD_STATE_RESERVED_BITS {
                            self.output.state().disable_handler(ii + KEYBOARD_STATE_RESERVED_BITS);
                        }
                    },
                }
                proof {
                    let x = (events_before, out_before);
                    assert(handlers_before[ii as int] == handlers0[ii as int]);
                    assert(ran_as(handlers0, self.handlers@, ii as int, Some(x)));
                    assert forall|j: int| 0 <= j < ii implies #[trigger] ran_as(
                        handlers0,
                        self.handlers@,
                        j,
                        done[j],
                    ) by {
                        assert(self.handlers@[j] == handlers_before[j]);
                        assert(ran_as(handlers0, handlers_before, j, done[j]));
                    }
                }
                if self.output.ro_state()._aborted() {
                    self.output.state()._clear_abort();
                    self.events.clear();
                    proof {
                        let x = (events_before, out_before);
                        let rest = Seq::new((n - ii - 1) as nat, |k: int| None::<Call>);
                        assert(run_inputs(handlers0, ii as int, events_before, out_before) == seq![Some(x)] + rest);
                        assert forall|j: int| 0 <= j < n implies #[trigger] ran_as(
                            handlers0,
                            self.handlers@,
                            j,
                            inputs[j],
                        ) by {
                            if j > ii {
                                assert(inputs[j] == rest[j - ii - 1]);
                                assert(self.handlers@[j] == handlers0[j]);
                            } else if j == ii {
                                assert(inputs[j] == Some(x));
                            } else {
                                assert(inputs[j] == done[j]);
                            }
                        }
                    }
                    break ;  // no more handlers being done
                }
                proof {
                    let x = (events_before, out_before);
                    assert(run_inputs(handlers0, ii as int, events_before, out_before) == seq![Some(x)]
                        + run_inputs(handlers0, ii + 1, self.events@, self.output@));
                    assert(inputs =~= done.push(Some(x)) + run_inputs(
                        handlers0,
                        ii + 1,
                        self.events@,
                        self.output@,
                    ));
                    done = done.push(Some(x));
                }
            } else {
                proof {
                    assert(run_inputs(handlers0, ii as int, events_before, out_before) == seq![None::<Call>]
                        + run_inputs(handlers0, ii + 1, self.events@, self.output@));
                    assert(inputs =~= done.push(None) + run_inputs(
                        handlers0,
                        ii + 1,
                        self.events@,
                        self.output@,
                    ));
                    done = done.push(None);
                }
            }
            ii += 1;
        }
        // remove handled & timeout events.
        let ghost handled = self.events@;
        let mut kept: Vec<(Event, EventStatus)> = Vec::new();
        let mut all_ignored = true;
        let mut j: usize = 0;
        while j < self.events.len()
            invariant
                j <= self.events@.len(),
                self.events@ == handled,
                self.output@ == full.1,
                self.running_number == old(self).running_number,
                self.calls == old(self).calls,
                self.handlers@.len() == old(self).handlers@.len(),
                kept@ == survivors(handled.subrange(0, j as int)),
                forall|k: int| 0 <= k < kept@.len() ==> survives_handling(#[trigger] kept@[k]),
                all_ignored <==> forall|k: int|
                    0 <= k < kept@.len() ==> (#[trigger] kept@[k]).1 == EventStatus::Ignored,
            decreases self.events@.len() - j,
        {
            let entry = self.events[j];
            let timeout = match entry.0 {
                Event::TimeOut(_) => true,
                _ => false,
            };
            assert(handled.subrange(0, j + 1).drop_last() =~= handled.subrange(0, j as int));
            assert(handled.subrange(0, j + 1).last() == entry);
            if entry.1 != EventStatus::Handled && !timeout {
                let ghost old_kept = kept@;
                if entry.1 != EventStatus::Ignored {
                    all_ignored = false;
                }
                kept.push(entry);
                assert(kept@ == old_kept.push(entry));
                assert(kept@[kept@.len() - 1] == entry);
                assert(forall|k: int| 0 <= k < old_kept.len() ==> kept@[k] == old_kept[k]);
            }
            j += 1;
        }
        assert(handled.subrange(0, handled.len() as int) =~= handled);
        self.events = kept;
        self.calls = Ghost(self.calls@.push(KeyboardCall::Handle));
        if !all_ignored {
            return Err(());
        }
        Ok(())
    }

    /// Throw away unhandled key events.
    pub fn clear_unhandled(&mut self)
        ensures
            final(self).event_log() == without_unhandled(old(self).event_log()),
            final(self).out() == old(self).out(),
            final(self).running() == old(self).running(),
            final(self).handler_count() == old(self).handler_count(),
            final(self).call_log() == old(self).call_log().push(KeyboardCall::ClearUnhandled),
            final(self).handler_list() == old(self).handler_list(),
    {
        let mut kept: Vec<(Event, EventStatus)> = Vec::new();
        let mut j: usize = 0;
        while j < self.events.len()
            invariant
                j <= self.events@.len(),
                self.events@ == old(self).events@,
                kept@ == without_unhandled(self.events@.subrange(0, j as int)),
            decreases self.events@.len() - j,
        {
            let entry = self.events[j];
            assert(self.events@.subrange(0, j + 1).drop_last() =~= self.events@.subrange(0, j as int));
            assert(self.events@.subrange(0, j + 1).last() == entry);
            if entry.1 != EventStatus::Unhandled {
                kept.push(entry);
            }
            j += 1;
        }
        assert(self.events@.subrange(0, self.events@.len() as int) =~= self.events@);
        self.events = kept;
        self.calls = Ghost(self.calls@.push(KeyboardCall::ClearUnhandled));
    }

    /// Add a KeyPress event.
    pub fn add_keypress<X: AcceptsKeycode>(&mut self, keycode: X, ms_since_last: u16)
        ensures
            final(self).event_log() == old(self).event_log().push(
                (
                    Event::KeyPress(
                        new_key(keycode.keycode_spec(), ms_since_last, old(self).running()),
                    ),
                    EventStatus::Unhandled,
                ),
            ),
            final(self).running() == old(self).running().wrapping_add(1),
            final(self).out() == old(self).out(),
            final(self).handler_count() == old(self).handler_count(),
            final(self).call_log() == old(self).call_log().push(
                KeyboardCall::Press(keycode.keycode_spec(), ms_since_last),
            ),
            final(self).handler_list() == old(self).handler_list(),
    {
        let code = keycode.to_u32();
        let e = Key {
            keycode: code,
            original_keycode: code,
            ms_since_last,
            running_number: self.running_number,
            flag: 0,
        };
        self.running_number = self.running_number.wrapping_add(1);
        self.calls = Ghost(self.calls@.push(KeyboardCall::Press(code, ms_since_last)));
        self.events.push((Event::KeyPress(e), EventStatus::Unhandled));
    }

    /// Add a KeyRelease event.
    pub fn add_keyrelease<X: AcceptsKeycode>(&mut self, keycode: X, ms_since_last: u16)
        ensures
            final(self).event_log() == old(self).event_log().push(
                (
                    Event::KeyRelease(
                        new_key(keycode.keycode_spec(), ms_since_last, old(self).running()),
                    ),
                    EventStatus::Unhandled,
                ),
            ),
            final(self).running() == old(self).running().wrapping_add(1),
            final(self).out() == old(self).out(),
            final(self).handler_count() == old(self).handler_count(),
            final(self).call_log() == old(self).call_log().push(
                KeyboardCall::Release(keycode.keycode_spec(), ms_since_last),
            ),
            final(self).handler_list() == old(self).handler_list(),
    {
        let code = keycode.to_u32();
        let e = Key {
            keycode: code,
            original_keycode: code,
            ms_since_last,
            running_number: self.running_number,
            flag: 0,
        };
        self.running_number = self.running_number.wrapping_add(1);
        self.calls = Ghost(self.calls@.push(KeyboardCall::Release(code, ms_since_last)));
        self.events.push((Event::KeyRelease(e), EventStatus::Unhandled));
    }

    /// Add a TimeOut event; a timeout directly before it is replaced.
    pub fn add_timeout(&mut self, ms_since_last: u16)
        ensures
            final(self).event_log() == with_timeout(old(self).event_log(), ms_since_last),
            final(self).call_log() == old(self).call_log().push(KeyboardCall::Timeout(ms_since_last)),
            final(self).running() == old(self).running(),
            final(self).out() == old(self).out(),
            final(self).handler_count() == old(self).handler_count(),
            final(self).handler_list() == old(self).handler_list(),
    {
        let len = self.events.len();
        if len > 0 {
            if let Event::TimeOut(_) = self.events[len - 1].0 {
                self.events.pop();
            }
        }
        self.events.push((Event::TimeOut(ms_since_last), EventStatus::Unhandled));
        self.calls = Ghost(self.calls@.push(KeyboardCall::Timeout(ms_since_last)));
    }
}


/// Law: `future_handler_id` predicts the ids `add_handler` hands out: the
/// next handler gets `future_handler_id(1)`, and after adding one handler
/// `future_handler_id(offset)` names what `future_handler_id(offset + 1)`
/// named before. Handler ids never collide with the reserved bits.
pub proof fn law_future_handler_id(before: Keyboard, after: Keyboard, id: HandlerID, offset: int)
    requires
        before.out().kb().flags().len() >= KEYBOARD_STATE_RESERVED_BITS,
        id == before.out().kb().flags().len(),
        after.out().kb().flags().len() == id + 1,
    ensures
        id == before.out().kb().flags().len() - 1 + 1,
        after.out().kb().flags().len() - 1 + offset == before.out().kb().flags().len() - 1 + (offset + 1),
        id >= KEYBOARD_STATE_RESERVED_BITS,
{
}

/// Law: `future_handler_id(k)` names the id of the k-th handler added
/// from now on. Over successive `add_handler` calls (keyboard `ks[j]`
/// before the j-th call, `ks[j + 1]` after it, `ids[j]` its result), the
/// k-th result is `predicted`, what `future_handler_id(k)` returned on the
/// first keyboard. On a keyboard whose state holds just the reserved bits
/// and one bit per handler (as from `Keyboard::new(KeyOutCatcher::new())`
/// on), that is 4 + the number of handlers so far + k.
pub proof fn law_future_handler_ids(ks: Seq<Keyboard>, ids: Seq<HandlerID>, k: int, predicted: HandlerID)
    requires
        ks.len() == ids.len() + 1,
        1 <= k <= ids.len(),
        predicted == ks[0].out().kb().flags().len() - 1 + k,
        forall|j: int|
            0 <= j < ids.len() ==> {
                &&& #[trigger] ids[j] == ks[j].out().kb().flags().len()
                &&& ks[j + 1].out().kb().flags().len() == ids[j] + 1
                &&& ks[j + 1].handler_count() == ks[j].handler_count() + 1
            },
    ensures
        ids[k - 1] == predicted,
        ks[0].out().kb().flags().len() == KEYBOARD_STATE_RESERVED_BITS + ks[0].handler_count()
            ==> ids[k - 1] == KEYBOARD_STATE_RESERVED_BITS - 1 + ks[0].handler_count() + k,
    decreases k,
{
    if k > 1 {
        law_future_handler_ids(ks, ids, k - 1, (predicted - 1) as usize);
        assert(ids[k - 2] == ks[k - 2].out().kb().flags().len());
        assert(ids[k - 1] == ks[k - 1].out().kb().flags().len());
    } else {
        assert(ids[0] == ks[0].out().kb().flags().len());
    }
}

} // verus!
