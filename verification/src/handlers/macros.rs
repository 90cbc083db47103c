//! Macros: callbacks on key press and release of a trigger key.
use vstd::prelude::*;
use crate::handlers::{Call, CallResult, lemma_prepend_call};
use crate::handlers::{Action, HandlerResult, OnOff, ProcessKeys};
use crate::key_codes::AcceptsKeycode;
use crate::key_stream::{Event, EventStatus, Key};
use crate::output::{KeyOutCatcher, OutView};

verus! {

/// Whether an unhandled event is a press or release of `trigger`; such
/// events are consumed by the macros.
pub open spec fn is_trigger_event(trigger: u32, entry: (Event, EventStatus)) -> bool {
    entry.1 == EventStatus::Unhandled && match entry.0 {
        Event::KeyPress(kc) => kc.keycode == trigger,
        Event::KeyRelease(kc) => kc.keycode == trigger,
        Event::TimeOut(_) => false,
    }
}

/// A macro consumes the presses and releases of its trigger and leaves
/// every other event alone.
pub open spec fn consume_trigger(trigger: u32, entry: (Event, EventStatus)) -> (Event, EventStatus) {
    if is_trigger_event(trigger, entry) {
        (entry.0, EventStatus::Handled)
    } else {
        entry
    }
}

/// The callback and the output after one event for a PressMacro: a press
/// of the trigger calls the callback.
pub open spec fn press_call<M: Action>(trigger: u32, st: (M, OutView), entry: (Event, EventStatus)) -> (
    M,
    OutView,
) {
    if entry.1 == EventStatus::Unhandled && (entry.0 matches Event::KeyPress(kc) && kc.keycode
        == trigger) {
        st.0.trigger_spec(st.1)
    } else {
        st
    }
}

/// The callback and the output of a PressMacro after a list of events, oldest first.
pub open spec fn press_calls<M: Action>(trigger: u32, st: (M, OutView), events: Seq<(Event, EventStatus)>) -> (
    M,
    OutView,
)
    decreases events.len(),
{
    if events.len() == 0 {
        st
    } else {
        press_call(trigger, press_calls(trigger, st, events.drop_last()), events.last())
    }
}

/// The callbacks and the output after one event for a PressReleaseMacro:
/// a press of the trigger activates, a release deactivates.
pub open spec fn press_release_call<M: OnOff>(
    trigger: u32,
    st: (M, OutView),
    entry: (Event, EventStatus),
) -> (M, OutView) {
    if entry.1 != EventStatus::Unhandled {
        st
    } else {
        match entry.0 {
            Event::KeyPress(kc) => if kc.keycode == trigger {
                st.0.activate_spec(st.1)
            } else {
                st
            },
            Event::KeyRelease(kc) => if kc.keycode == trigger {
                st.0.deactivate_spec(st.1)
            } else {
                st
            },
            Event::TimeOut(_) => st,
        }
    }
}

/// The callbacks and the output of a PressReleaseMacro after a list of
/// events, oldest first.
pub open spec fn press_release_calls<M: OnOff>(
    trigger: u32,
    st: (M, OutView),
    events: Seq<(Event, EventStatus)>,
) -> (M, OutView)
    decreases events.len(),
{
    if events.len() == 0 {
        st
    } else {
        press_release_call(trigger, press_release_calls(trigger, st, events.drop_last()), events.last())
    }
}

/// Law: a PressMacro calls its action on an unhandled press of its trigger
/// only. A release, a timeout, a press of another key or an event already
/// handled leaves the action and the output as they were, so a tap of the
/// trigger (press, then release) calls the action exactly once.
pub proof fn law_press_macro_calls<M: Action>(
    trigger: u32,
    st: (M, OutView),
    kc: Key,
    status: EventStatus,
    t: u16,
    press: Key,
    release: Key,
)
    requires
        press.keycode == trigger,
        release.keycode == trigger,
    ensures
        press_call(trigger, st, (Event::KeyRelease(kc), status)) == st,
        press_call(trigger, st, (Event::TimeOut(t), status)) == st,
        status != EventStatus::Unhandled ==> press_call(trigger, st, (Event::KeyPress(kc), status)) == st,
        press_call(trigger, st, (Event::KeyPress(kc), EventStatus::Unhandled)) == if kc.keycode == trigger {
            st.0.trigger_spec(st.1)
        } else {
            st
        },
        press_calls(
            trigger,
            st,
            seq![
                (Event::KeyPress(press), EventStatus::Unhandled),
                (Event::KeyRelease(release), EventStatus::Unhandled),
            ],
        ) == st.0.trigger_spec(st.1),
{
    let p = (Event::KeyPress(press), EventStatus::Unhandled);
    let r = (Event::KeyRelease(release), EventStatus::Unhandled);
    let one = seq![p];
    let two = seq![p, r];
    assert(one.drop_last() =~= Seq::<(Event, EventStatus)>::empty());
    assert(two.drop_last() =~= one);
    assert(one.last() == p);
    assert(two.last() == r);
    assert(press_calls(trigger, st, Seq::<(Event, EventStatus)>::empty()) == st);
    assert(press_calls(trigger, st, one) == st.0.trigger_spec(st.1));
}

/// Law: a PressReleaseMacro activates on an unhandled press of its trigger
/// and deactivates on an unhandled release of it; every other event leaves
/// the callbacks and the output as they were. A tap of the trigger thus
/// activates once and then deactivates once.
pub proof fn law_press_release_macro_calls<M: OnOff>(
    trigger: u32,
    st: (M, OutView),
    kc: Key,
    status: EventStatus,
    t: u16,
    press: Key,
    release: Key,
)
    requires
        press.keycode == trigger,
        release.keycode == trigger,
    ensures
        press_release_call(trigger, st, (Event::TimeOut(t), status)) == st,
        status != EventStatus::Unhandled ==> press_release_call(trigger, st, (Event::KeyPress(kc), status))
            == st && press_release_call(trigger, st, (Event::KeyRelease(kc), status)) == st,
        press_release_call(trigger, st, (Event::KeyPress(kc), EventStatus::Unhandled)) == if kc.keycode
            == trigger {
            st.0.activate_spec(st.1)
        } else {
            st
        },
        press_release_call(trigger, st, (Event::KeyRelease(kc), EventStatus::Unhandled)) == if kc.keycode
            == trigger {
            st.0.deactivate_spec(st.1)
        } else {
            st
        },
        ({
            let on = st.0.activate_spec(st.1);
            press_release_calls(
                trigger,
                st,
                seq![
                    (Event::KeyPress(press), EventStatus::Unhandled),
                    (Event::KeyRelease(release), EventStatus::Unhandled),
                ],
            ) == on.0.deactivate_spec(on.1)
        }),
{
    let p = (Event::KeyPress(press), EventStatus::Unhandled);
    let r = (Event::KeyRelease(release), EventStatus::Unhandled);
    let one = seq![p];
    let two = seq![p, r];
    assert(one.drop_last() =~= Seq::<(Event, EventStatus)>::empty());
    assert(two.drop_last() =~= one);
    assert(one.last() == p);
    assert(two.last() == r);
    assert(press_release_calls(trigger, st, Seq::<(Event, EventStatus)>::empty()) == st);
    assert(press_release_calls(trigger, st, one) == st.0.activate_spec(st.1));
}

/// The simplest callback: call on_trigger on press, nothing on release.
///
/// The trigger may be any key code, but consider using the constants in
/// UserKey::*, which are not used by either UnicodeKeyboard or USBKeyboard.
pub struct PressMacro<M> {
    keycode: u32,
    callback: M,
}

impl<M: Action> PressMacro<M> {

    /// The handler after a `process_keys` call on these events and output.
    pub closed spec fn after_run(&self, events: Seq<(Event, EventStatus)>, out: OutView) -> Self {
        PressMacro { callback: press_calls(self.keycode, (self.callback, out), events).0, ..*self }
    }
    /// The trigger key code.
    pub closed spec fn trigger(self) -> u32 {
        self.keycode
    }

    /// The callback.
    pub closed spec fn callback(self) -> M {
        self.callback
    }

    pub fn new<T: AcceptsKeycode>(trigger: T, callback: M) -> (r: PressMacro<M>)
        ensures
            r.trigger() == trigger.keycode_spec(),
            r.callback() == callback,
    {
        PressMacro { keycode: trigger.to_u32(), callback }
    }
}

impl<M: Action> ProcessKeys for PressMacro<M> {
    open spec fn processes(&self, events: Seq<(Event, EventStatus)>, out: OutView) -> (
        Seq<(Event, EventStatus)>,
        OutView,
        HandlerResult,
    ) {
        (
            events.map_values(|e: (Event, EventStatus)| consume_trigger(self.trigger(), e)),
            press_calls(self.trigger(), (self.callback(), out), events).1,
            HandlerResult::NoOp,
        )
    }

    closed spec fn behaviour(&self, calls: Seq<Call>) -> Seq<CallResult>
        decreases calls.len(),
    {
        if calls.len() == 0 {
            Seq::empty()
        } else {
            seq![self.processes(calls[0].0, calls[0].1)] + self.after_run(calls[0].0, calls[0].1).behaviour(calls.drop_first())
        }
    }


    /// Calls the callback for every unhandled press of the trigger.
    fn process_keys(
        &mut self,
        events: &mut Vec<(Event, EventStatus)>,
        output: &mut KeyOutCatcher,
    ) -> (r: HandlerResult)
        ensures
            r == HandlerResult::NoOp,
            final(self).trigger() == old(self).trigger(),
            (final(self).callback(), final(output)@) == press_calls(
                old(self).trigger(),
                (old(self).callback(), old(output)@),
                old(events)@,
            ),
            final(events)@.len() == old(events)@.len(),
            forall|i: int|
                0 <= i < old(events)@.len() ==> #[trigger] final(events)@[i] == consume_trigger(
                    old(self).trigger(),
                    old(events)@[i],
                ),
    {
        let n = events.len();
        let mut i: usize = 0;
        while i < n
            invariant
                n == events@.len(),
                n == old(events)@.len(),
                i <= n,
                self.keycode == old(self).keycode,
                (self.callback, output@) == press_calls(
                    self.keycode,
                    (old(self).callback, old(output)@),
                    old(events)@.subrange(0, i as int),
                ),
                forall|j: int|
                    0 <= j < i ==> #[trigger] events@[j] == consume_trigger(
                        self.keycode,
                        old(events)@[j],
                    ),
                forall|j: int| i <= j < n ==> #[trigger] events@[j] == old(events)@[j],
            decreases n - i,
        {
            let (event, status) = events[i];
            if status == EventStatus::Unhandled {
                match event {
                    Event::KeyPress(kc) => {
                        if kc.keycode == self.keycode {
                            events.set(i, (event, EventStatus::Handled));
                            self.callback.on_trigger(output);
                        }
                    },
                    Event::KeyRelease(kc) => {
                        if kc.keycode == self.keycode {
                            events.set(i, (event, EventStatus::Handled));
                        }
                    },
                    Event::TimeOut(_) => {},
                }
            }
            proof {
                assert(old(events)@.subrange(0, i + 1).drop_last() =~= old(events)@.subrange(0, i as int));
                assert(old(events)@.subrange(0, i + 1).last() == old(events)@[i as int]);
            }
            i += 1;
        }
        assert(old(events)@.subrange(0, n as int) =~= old(events)@);
        assert(events@ =~= old(events)@.map_values(
            |e: (Event, EventStatus)| consume_trigger(old(self).trigger(), e),
        ));
        proof {
            assert forall|calls: Seq<Call>|
                calls.len() > 0 implies #[trigger] self.behaviour(calls)[0] == self.processes(
                calls[0].0,
                calls[0].1,
            ) by {
            lemma_prepend_call(
                calls[0],
                calls.drop_first(),
                self.processes(calls[0].0, calls[0].1),
                self.after_run(calls[0].0, calls[0].1).behaviour(calls.drop_first()),
            );
            }
            assert forall|calls: Seq<Call>|
                calls.len() > 0 implies #[trigger] old(self).behaviour(calls)[0] == old(self).processes(
                calls[0].0,
                calls[0].1,
            ) by {
            lemma_prepend_call(
                calls[0],
                calls.drop_first(),
                old(self).processes(calls[0].0, calls[0].1),
                old(self).after_run(calls[0].0, calls[0].1).behaviour(calls.drop_first()),
            );
            }
            let x = (old(events)@, old(output)@);
            assert(*self == old(self).after_run(x.0, x.1));
            assert forall|calls: Seq<Call>|
                #[trigger] self.behaviour(calls) == old(self).behaviour(seq![x] + calls).drop_first() by {
                lemma_prepend_call(x, calls, old(self).processes(x.0, x.1), self.behaviour(calls));
            }
        }
        HandlerResult::NoOp
    }

    fn default_enabled(&self) -> (r: bool) {
        true
    }

    fn oneshot_triggers(&self) -> (r: Vec<u32>) {
        Vec::new()
    }
}

/// A simple callback: call on_activate on key press and on_deactivate on
/// key release.
///
/// The trigger may be any key code, but consider using the constants in
/// UserKey::*, which are not used by either UnicodeKeyboard or USBKeyboard.
pub struct PressReleaseMacro<M> {
    keycode: u32,
    callbacks: M,
}

impl<M: OnOff> PressReleaseMacro<M> {

    /// The handler after a `process_keys` call on these events and output.
    pub closed spec fn after_run(&self, events: Seq<(Event, EventStatus)>, out: OutView) -> Self {
        PressReleaseMacro {
            callbacks: press_release_calls(self.keycode, (self.callbacks, out), events).0,
            ..*self
        }
    }
    /// The trigger key code.
    pub closed spec fn trigger(self) -> u32 {
        self.keycode
    }

    /// The on/off callbacks.
    pub closed spec fn callbacks(self) -> M {
        self.callbacks
    }

    pub fn new<T: AcceptsKeycode>(trigger: T, callbacks: M) -> (r: PressReleaseMacro<M>)
        ensures
            r.trigger() == trigger.keycode_spec(),
            r.callbacks() == callbacks,
    {
        PressReleaseMacro { keycode: trigger.to_u32(), callbacks }
    }
}

impl<M: OnOff> ProcessKeys for PressReleaseMacro<M> {
    open spec fn processes(&self, events: Seq<(Event, EventStatus)>, out: OutView) -> (
        Seq<(Event, EventStatus)>,
        OutView,
        HandlerResult,
    ) {
        (
            events.map_values(|e: (Event, EventStatus)| consume_trigger(self.trigger(), e)),
            press_release_calls(self.trigger(), (self.callbacks(), out), events).1,
            HandlerResult::NoOp,
        )
    }

    closed spec fn behaviour(&self, calls: Seq<Call>) -> Seq<CallResult>
        decreases calls.len(),
    {
        if calls.len() == 0 {
            Seq::empty()
        } else {
            seq![self.processes(calls[0].0, calls[0].1)] + self.after_run(calls[0].0, calls[0].1).behaviour(calls.drop_first())
        }
    }


    /// Calls on_activate for every unhandled press of the trigger and
    /// on_deactivate for every unhandled release of it.
    fn process_keys(
        &mut self,
        events: &mut Vec<(Event, EventStatus)>,
        output: &mut KeyOutCatcher,
    ) -> (r: HandlerResult)
        ensures
            r == HandlerResult::NoOp,
            final(self).trigger() == old(self).trigger(),
            (final(self).callbacks(), final(output)@) == press_release_calls(
                old(self).trigger(),
                (old(self).callbacks(), old(output)@),
                old(events)@,
            ),
            final(events)@.len() == old(events)@.len(),
            forall|i: int|
                0 <= i < old(events)@.len() ==> #[trigger] final(events)@[i] == consume_trigger(
                    old(self).trigger(),
                    old(events)@[i],
                ),
    {
        let n = events.len();
        let mut i: usize = 0;
        while i < n
            invariant
                n == events@.len(),
                n == old(events)@.len(),
                i <= n,
                self.keycode == old(self).keycode,
                (self.callbacks, output@) == press_release_calls(
                    self.keycode,
                    (old(self).callbacks, old(output)@),
                    old(events)@.subrange(0, i as int),
                ),
                forall|j: int|
                    0 <= j < i ==> #[trigger] events@[j] == consume_trigger(
                        self.keycode,
                        old(events)@[j],
                    ),
                forall|j: int| i <= j < n ==> #[trigger] events@[j] == old(events)@[j],
            decreases n - i,
        {
            let (event, status) = events[i];
            if status == EventStatus::Unhandled {
                match event {
                    Event::KeyPress(kc) => {
                        if kc.keycode == self.keycode {
                            events.set(i, (event, EventStatus::Handled));
                            self.callbacks.on_activate(output);
                        }
                    },
                    Event::KeyRelease(kc) => {
                        if kc.keycode == self.keycode {
                            events.set(i, (event, EventStatus::Handled));
                            self.callbacks.on_deactivate(output);
                        }
                    },
                    Event::TimeOut(_) => {},
                }
            }
            proof {
                assert(old(events)@.subrange(0, i + 1).drop_last() =~= old(events)@.subrange(0, i as int));
                assert(old(events)@.subrange(0, i + 1).last() == old(events)@[i as int]);
            }
            i += 1;
        }
        assert(old(events)@.subrange(0, n as int) =~= old(events)@);
        assert(events@ =~= old(events)@.map_values(
            |e: (Event, EventStatus)| consume_trigger(old(self).trigger(), e),
        ));
        proof {
            assert forall|calls: Seq<Call>|
                calls.len() > 0 implies #[trigger] self.behaviour(calls)[0] == self.processes(
                calls[0].0,
                calls[0].1,
            ) by {
            lemma_prepend_call(
                calls[0],
                calls.drop_first(),
                self.processes(calls[0].0, calls[0].1),
                self.after_run(calls[0].0, calls[0].1).behaviour(calls.drop_first()),
            );
            }
            assert forall|calls: Seq<Call>|
                calls.len() > 0 implies #[trigger] old(self).behaviour(calls)[0] == old(self).processes(
                calls[0].0,
                calls[0].1,
            ) by {
            lemma_prepend_call(
                calls[0],
                calls.drop_first(),
                old(self).processes(calls[0].0, calls[0].1),
                old(self).after_run(calls[0].0, calls[0].1).behaviour(calls.drop_first()),
            );
            }
            let x = (old(events)@, old(output)@);
            assert(*self == old(self).after_run(x.0, x.1));
            assert forall|calls: Seq<Call>|
                #[trigger] self.behaviour(calls) == old(self).behaviour(seq![x] + calls).drop_first() by {
                lemma_prepend_call(x, calls, old(self).processes(x.0, x.1), self.behaviour(calls));
            }
        }
        HandlerResult::NoOp
    }

    fn default_enabled(&self) -> (r: bool) {
        true
    }

    fn oneshot_triggers(&self) -> (r: Vec<u32>) {
        Vec::new()
    }
}

/// The state of a sticky macro after one event: 0 inactive, 1 active after
/// the first press, 2 after a further press; the release that follows
/// deactivates it (0 again).
pub open spec fn sticky_step(trigger: u32, active: u8, entry: (Event, EventStatus)) -> u8 {
    if entry.1 == EventStatus::Unhandled {
        match entry.0 {
            Event::KeyPress(kc) => if kc.keycode == trigger {
                if active == 0 {
                    1
                } else {
                    2
                }
            } else {
                active
            },
            Event::KeyRelease(kc) => if kc.keycode == trigger && active == 2 {
                0
            } else {
                active
            },
            Event::TimeOut(_) => active,
        }
    } else {
        active
    }
}

/// The callbacks and the output after one event for a StickyMacro, given
/// its state before it: the first press of the trigger activates, the
/// release after a further press deactivates.
pub open spec fn sticky_call<M: OnOff>(
    trigger: u32,
    active: u8,
    st: (M, OutView),
    entry: (Event, EventStatus),
) -> (M, OutView) {
    if entry.1 != EventStatus::Unhandled {
        st
    } else {
        match entry.0 {
            Event::KeyPress(kc) => if kc.keycode == trigger && active == 0 {
                st.0.activate_spec(st.1)
            } else {
                st
            },
            Event::KeyRelease(kc) => if kc.keycode == trigger && active == 2 {
                st.0.deactivate_spec(st.1)
            } else {
                st
            },
            Event::TimeOut(_) => st,
        }
    }
}

/// The callbacks and the output of a StickyMacro after a list of events,
/// oldest first.
pub open spec fn sticky_calls<M: OnOff>(
    trigger: u32,
    active: u8,
    st: (M, OutView),
    events: Seq<(Event, EventStatus)>,
) -> (M, OutView)
    decreases events.len(),
{
    if events.len() == 0 {
        st
    } else {
        sticky_call(
            trigger,
            sticky_run(trigger, active, events.drop_last()),
            sticky_calls(trigger, active, st, events.drop_last()),
            events.last(),
        )
    }
}

/// Law: a sticky macro is switched on by a tap of its trigger and off by
/// the next tap, after which it is off as at the start: from inactive,
/// press and release leave it active (1), and a second press and release
/// leave it inactive (0).
pub proof fn law_sticky_cycle(trigger: u32, press: Key, release: Key)
    requires
        press.keycode == trigger,
        release.keycode == trigger,
    ensures
        ({
            let p = (Event::KeyPress(press), EventStatus::Unhandled);
            let r = (Event::KeyRelease(release), EventStatus::Unhandled);
            &&& sticky_run(trigger, 0, seq![p, r]) == 1
            &&& sticky_run(trigger, 0, seq![p, r, p, r]) == 0
        }),
{
    let p = (Event::KeyPress(press), EventStatus::Unhandled);
    let r = (Event::KeyRelease(release), EventStatus::Unhandled);
    let one = seq![p];
    let two = seq![p, r];
    let three = seq![p, r, p];
    let four = seq![p, r, p, r];
    assert(one.drop_last() =~= Seq::<(Event, EventStatus)>::empty());
    assert(two.drop_last() =~= one);
    assert(three.drop_last() =~= two);
    assert(four.drop_last() =~= three);
    assert(sticky_run(trigger, 0, Seq::<(Event, EventStatus)>::empty()) == 0);
    assert(one.last() == p);
    assert(two.last() == r);
    assert(three.last() == p);
    assert(four.last() == r);
    assert(sticky_run(trigger, 0, one) == 1);
    assert(sticky_run(trigger, 0, two) == 1);
    assert(sticky_run(trigger, 0, three) == 2);
}

/// The state of a sticky macro after a list of events, oldest first.
pub open spec fn sticky_run(trigger: u32, active: u8, events: Seq<(Event, EventStatus)>) -> u8
    decreases events.len(),
{
    if events.len() == 0 {
        active
    } else {
        sticky_step(trigger, sticky_run(trigger, active, events.drop_last()), events.last())
    }
}

/// A macro that is switched on on the first key press and off on the
/// second key release (and can then be switched on again). Using this you can implement e.g. sticky modifiers.
pub struct StickyMacro<M> {
    keycode: u32,
    callbacks: M,
    active: u8,
}

impl<M: OnOff> StickyMacro<M> {

    /// The handler after a `process_keys` call on these events and output.
    pub closed spec fn after_run(&self, events: Seq<(Event, EventStatus)>, out: OutView) -> Self {
        StickyMacro {
            callbacks: sticky_calls(self.keycode, self.active, (self.callbacks, out), events).0,
            active: sticky_run(self.keycode, self.active, events),
            ..*self
        }
    }
    /// The trigger key code.
    pub closed spec fn trigger(self) -> u32 {
        self.keycode
    }

    /// 0 inactive, 1 active after the first press, 2 after a further press.
    pub closed spec fn activity(self) -> u8 {
        self.active
    }

    /// The on/off callbacks.
    pub closed spec fn callbacks(self) -> M {
        self.callbacks
    }

    pub fn new<T: AcceptsKeycode>(trigger: T, callbacks: M) -> (r: StickyMacro<M>)
        ensures
            r.trigger() == trigger.keycode_spec(),
            r.activity() == 0,
            r.callbacks() == callbacks,
    {
        StickyMacro { keycode: trigger.to_u32(), callbacks, active: 0 }
    }
}

impl<M: OnOff> ProcessKeys for StickyMacro<M> {
    open spec fn processes(&self, events: Seq<(Event, EventStatus)>, out: OutView) -> (
        Seq<(Event, EventStatus)>,
        OutView,
        HandlerResult,
    ) {
        (
            events.map_values(|e: (Event, EventStatus)| consume_trigger(self.trigger(), e)),
            sticky_calls(self.trigger(), self.activity(), (self.callbacks(), out), events).1,
            HandlerResult::NoOp,
        )
    }

    closed spec fn behaviour(&self, calls: Seq<Call>) -> Seq<CallResult>
        decreases calls.len(),
    {
        if calls.len() == 0 {
            Seq::empty()
        } else {
            seq![self.processes(calls[0].0, calls[0].1)] + self.after_run(calls[0].0, calls[0].1).behaviour(calls.drop_first())
        }
    }


    /// On the first press of the trigger on_activate is called; on a
    /// release of the trigger after a further press on_deactivate is called.
    fn process_keys(
        &mut self,
        events: &mut Vec<(Event, EventStatus)>,
        output: &mut KeyOutCatcher,
    ) -> (r: HandlerResult)
        ensures
            r == HandlerResult::NoOp,
            final(self).trigger() == old(self).trigger(),
            final(self).activity() == sticky_run(old(self).trigger(), old(self).activity(), old(events)@),
            (final(self).callbacks(), final(output)@) == sticky_calls(
                old(self).trigger(),
                old(self).activity(),
                (old(self).callbacks(), old(output)@),
                old(events)@,
            ),
            final(events)@.len() == old(events)@.len(),
            forall|i: int|
                0 <= i < old(events)@.len() ==> #[trigger] final(events)@[i] == consume_trigger(
                    old(self).trigger(),
                    old(events)@[i],
                ),
    {
        let n = events.len();
        let mut i: usize = 0;
        while i < n
            invariant
                n == events@.len(),
                n == old(events)@.len(),
                i <= n,
                self.keycode == old(self).keycode,
                self.active == sticky_run(self.keycode, old(self).active, old(events)@.subrange(0, i as int)),
                (self.callbacks, output@) == sticky_calls(
                    self.keycode,
                    old(self).active,
                    (old(self).callbacks, old(output)@),
                    old(events)@.subrange(0, i as int),
                ),
                forall|j: int|
                    0 <= j < i ==> #[trigger] events@[j] == consume_trigger(
                        self.keycode,
                        old(events)@[j],
                    ),
                forall|j: int| i <= j < n ==> #[trigger] events@[j] == old(events)@[j],
            decreases n - i,
        {
            //a sticky key
            // on press if not active -> active
            // on 2nd release if active -> deactivate
            let (event, status) = events[i];
            if status == EventStatus::Unhandled {
                match event {
                    Event::KeyPress(kc) => {
                        if kc.keycode == self.keycode {
                            if self.active == 0 {
                                self.active = 1;
                                self.callbacks.on_activate(output);
                            } else {
                                self.active = 2;
                            }
                            events.set(i, (event, EventStatus::Handled));
                        }
                    },
                    Event::KeyRelease(kc) => {
                        if kc.keycode == self.keycode {
                            if self.active == 2 {
                                self.active = 0;
                                self.callbacks.on_deactivate(output);
                            }
                            events.set(i, (event, EventStatus::Handled));
                        }
                    },
                    Event::TimeOut(_) => {},
                }
            }
            proof {
                assert(old(events)@.subrange(0, i + 1).drop_last() =~= old(events)@.subrange(0, i as int));
                assert(old(events)@.subrange(0, i + 1).last() == old(events)@[i as int]);
            }
            i += 1;
        }
        assert(old(events)@.subrange(0, n as int) =~= old(events)@);
        assert(events@ =~= old(events)@.map_values(
            |e: (Event, EventStatus)| consume_trigger(old(self).trigger(), e),
        ));
        proof {
            assert forall|calls: Seq<Call>|
                calls.len() > 0 implies #[trigger] self.behaviour(calls)[0] == self.processes(
                calls[0].0,
                calls[0].1,
            ) by {
            lemma_prepend_call(
                calls[0],
                calls.drop_first(),
                self.processes(calls[0].0, calls[0].1),
                self.after_run(calls[0].0, calls[0].1).behaviour(calls.drop_first()),
            );
            }
            assert forall|calls: Seq<Call>|
                calls.len() > 0 implies #[trigger] old(self).behaviour(calls)[0] == old(self).processes(
                calls[0].0,
                calls[0].1,
            ) by {
            lemma_prepend_call(
                calls[0],
                calls.drop_first(),
                old(self).processes(calls[0].0, calls[0].1),
                old(self).after_run(calls[0].0, calls[0].1).behaviour(calls.drop_first()),
            );
            }
            let x = (old(events)@, old(output)@);
            assert(*self == old(self).after_run(x.0, x.1));
            assert forall|calls: Seq<Call>|
                #[trigger] self.behaviour(calls) == old(self).behaviour(seq![x] + calls).drop_first() by {
                lemma_prepend_call(x, calls, old(self).processes(x.0, x.1), self.behaviour(calls));
            }
        }
        HandlerResult::NoOp
    }

    fn default_enabled(&self) -> (r: bool) {
        true
    }

    fn oneshot_triggers(&self) -> (r: Vec<u32>) {
        Vec::new()
    }
}

} // verus!
