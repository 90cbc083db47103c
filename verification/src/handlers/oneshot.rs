//! One shot keys: press once, and the next key is modified.
use vstd::prelude::*;
use crate::handlers::{Call, CallResult, lemma_prepend_call};
use crate::handlers::{Action, HandlerResult, OnOff, ProcessKeys, contains_code};
use crate::key_codes::AcceptsKeycode;
use crate::key_stream::{Event, EventStatus, Key};
use crate::output::{KeyOutCatcher, OutView};

verus! {

#[derive(PartialEq, Eq, Structural, Debug, Clone, Copy)]
pub enum OneShotStatus {
    /// the trigger is pressed
    Held,
    /// the trigger is pressed and another key was released meanwhile
    HeldUsed,
    /// the trigger was pressed and released: the next key is modified
    Triggered,
    /// triggered, and another key has been pressed
    TriggerUsed,
    Off,
}

/// What a one shot works with while it processes the events.
pub ghost struct OneShotCfg {
    pub trigger1: u32,
    pub trigger2: u32,
    pub held_timeout: u16,
    pub released_timeout: u16,
    /// the key codes of all one shot triggers of the keyboard
    pub triggers: Seq<u32>,
}

/// Whether a key code is one of the triggers of this one shot.
pub open spec fn is_own_trigger(cfg: OneShotCfg, code: u32) -> bool {
    code == cfg.trigger1 || code == cfg.trigger2
}

/// The status of a one shot after one event, together with whether
/// another key was pressed while Triggered during this call: then the
/// release of another key ends the one shot, also when that press and
/// release come in one batch.
pub open spec fn oneshot_step(
    cfg: OneShotCfg,
    st: (OneShotStatus, bool),
    entry: (Event, EventStatus),
) -> (OneShotStatus, bool) {
    let (status, used_here) = st;
    if entry.1 != EventStatus::Unhandled {
        st
    } else {
        match entry.0 {
            Event::KeyPress(kc) => if is_own_trigger(cfg, kc.keycode) {
                match status {
                    OneShotStatus::Triggered => (OneShotStatus::Off, used_here),
                    OneShotStatus::Off => (OneShotStatus::Held, used_here),
                    _ => st,
                }
            } else if !cfg.triggers.contains(kc.keycode) {
                match status {
                    OneShotStatus::Triggered => (OneShotStatus::TriggerUsed, true),
                    OneShotStatus::TriggerUsed => (OneShotStatus::Off, used_here),
                    _ => st,
                }
            } else {
                st
            },
            Event::KeyRelease(kc) => if is_own_trigger(cfg, kc.keycode) {
                match status {
                    OneShotStatus::Held => if cfg.held_timeout > 0 && kc.ms_since_last
                        >= cfg.held_timeout {
                        (OneShotStatus::Off, used_here)
                    } else {
                        (OneShotStatus::Triggered, used_here)
                    },
                    OneShotStatus::HeldUsed => (OneShotStatus::Off, used_here),
                    _ => st,
                }
            } else if !cfg.triggers.contains(kc.keycode) {
                match status {
                    OneShotStatus::Triggered => (OneShotStatus::Off, used_here),
                    OneShotStatus::TriggerUsed => if used_here {
                        (OneShotStatus::Off, used_here)
                    } else {
                        st
                    },
                    OneShotStatus::Held => (OneShotStatus::HeldUsed, used_here),
                    _ => st,
                }
            } else {
                st
            },
            Event::TimeOut(ms) => if status == OneShotStatus::Triggered && cfg.released_timeout > 0
                && ms >= cfg.released_timeout {
                (OneShotStatus::Off, used_here)
            } else {
                st
            },
        }
    }
}

/// The status of a one shot after a list of events, oldest first (with
/// whether another key was pressed while Triggered meanwhile).
pub open spec fn oneshot_run(
    cfg: OneShotCfg,
    st: (OneShotStatus, bool),
    events: Seq<(Event, EventStatus)>,
) -> (OneShotStatus, bool)
    decreases events.len(),
{
    if events.len() == 0 {
        st
    } else {
        oneshot_step(cfg, oneshot_run(cfg, st, events.drop_last()), events.last())
    }
}

/// Whether the event activates the one shot: it leaves Off (for Held).
pub open spec fn activates(cfg: OneShotCfg, st: (OneShotStatus, bool), entry: (Event, EventStatus)) -> bool {
    st.0 == OneShotStatus::Off && oneshot_step(cfg, st, entry).0 == OneShotStatus::Held
}

/// Whether the event deactivates the one shot: it returns to Off.
pub open spec fn deactivates(cfg: OneShotCfg, st: (OneShotStatus, bool), entry: (Event, EventStatus)) -> bool {
    st.0 != OneShotStatus::Off && oneshot_step(cfg, st, entry).0 == OneShotStatus::Off
}

/// How many of the events activate the one shot (on_activate calls).
pub open spec fn activation_count(
    cfg: OneShotCfg,
    st: (OneShotStatus, bool),
    events: Seq<(Event, EventStatus)>,
) -> nat
    decreases events.len(),
{
    if events.len() == 0 {
        0
    } else {
        activation_count(cfg, st, events.drop_last()) + if activates(
            cfg,
            oneshot_run(cfg, st, events.drop_last()),
            events.last(),
        ) {
            1nat
        } else {
            0nat
        }
    }
}

/// How many of the events deactivate the one shot (on_deactivate calls).
pub open spec fn deactivation_count(
    cfg: OneShotCfg,
    st: (OneShotStatus, bool),
    events: Seq<(Event, EventStatus)>,
) -> nat
    decreases events.len(),
{
    if events.len() == 0 {
        0
    } else {
        deactivation_count(cfg, st, events.drop_last()) + if deactivates(
            cfg,
            oneshot_run(cfg, st, events.drop_last()),
            events.last(),
        ) {
            1nat
        } else {
            0nat
        }
    }
}

/// The callbacks and the output after one event, given the status before
/// it: on_activate when the one shot leaves Off, on_deactivate when it
/// returns to Off, and after that the double tap action of the trigger
/// pressed while Triggered.
pub open spec fn oneshot_call<M1: OnOff, M2: Action, M3: Action>(
    cfg: OneShotCfg,
    st: (OneShotStatus, bool),
    cb: (M1, M2, M3, OutView),
    entry: (Event, EventStatus),
) -> (M1, M2, M3, OutView) {
    let switched = if activates(cfg, st, entry) {
        let (c, o) = cb.0.activate_spec(cb.3);
        (c, cb.1, cb.2, o)
    } else if deactivates(cfg, st, entry) {
        let (c, o) = cb.0.deactivate_spec(cb.3);
        (c, cb.1, cb.2, o)
    } else {
        cb
    };
    match entry.0 {
        Event::KeyPress(kc) => if entry.1 == EventStatus::Unhandled && st.0 == OneShotStatus::Triggered
            && is_own_trigger(cfg, kc.keycode) {
            if kc.keycode == cfg.trigger1 {
                let (d, o) = switched.1.trigger_spec(switched.3);
                (switched.0, d, switched.2, o)
            } else {
                let (d, o) = switched.2.trigger_spec(switched.3);
                (switched.0, switched.1, d, o)
            }
        } else {
            switched
        },
        _ => switched,
    }
}

/// The callbacks and the output after a list of events, oldest first.
pub open spec fn oneshot_calls<M1: OnOff, M2: Action, M3: Action>(
    cfg: OneShotCfg,
    st: (OneShotStatus, bool),
    cb: (M1, M2, M3, OutView),
    events: Seq<(Event, EventStatus)>,
) -> (M1, M2, M3, OutView)
    decreases events.len(),
{
    if events.len() == 0 {
        cb
    } else {
        oneshot_call(
            cfg,
            oneshot_run(cfg, st, events.drop_last()),
            oneshot_calls(cfg, st, cb, events.drop_last()),
            events.last(),
        )
    }
}

/// A one shot consumes the presses and releases of its triggers.
pub open spec fn oneshot_event(cfg: OneShotCfg, entry: (Event, EventStatus)) -> (Event, EventStatus) {
    if entry.1 != EventStatus::Unhandled {
        entry
    } else {
        match entry.0 {
            Event::KeyPress(kc) => if is_own_trigger(cfg, kc.keycode) {
                (entry.0, EventStatus::Handled)
            } else {
                entry
            },
            Event::KeyRelease(kc) => if is_own_trigger(cfg, kc.keycode) {
                (entry.0, EventStatus::Handled)
            } else {
                entry
            },
            Event::TimeOut(_) => entry,
        }
    }
}

/// A OneShot key.
///
/// Press it, and on_activate is called; on_deactivate is called after the
/// next non-oneshot key release, or if the OneShot trigger is pressed
/// again. In that case, on_double_tap_triggerX is called as well (after
/// on_deactivate; use ActionNone for no action).
///
/// If held_timeout is > 0 and the key is pressed for at least that many
/// ms, on_deactivate is called upon release. This typically is useful for
/// graphics work where the user presses the modifiers while interacting
/// with the mouse.
///
/// You may also define a released_timeout: after this time, without a
/// different key press, the OneShot deactivates as well.
///
/// OneShots have two triggers to accommodate the usual left/right modifier
/// keys; pass in KeyCode::No if you want one trigger to be ignored.
pub struct OneShot<M1, M2, M3> {
    trigger1: u32,
    trigger2: u32,
    callbacks: M1,
    on_double_tap_trigger1: M2,
    on_double_tap_trigger2: M3,
    status: OneShotStatus,
    held_timeout: u16,
    released_timeout: u16,
}

impl<M1: OnOff, M2: Action, M3: Action> OneShot<M1, M2, M3> {

    /// The handler after a `process_keys` call on these events and output.
    pub closed spec fn after_run(&self, events: Seq<(Event, EventStatus)>, out: OutView) -> Self {
        let cfg = self.cfg(out.triggers);
        let (c, d1, d2, o) = oneshot_calls(
            cfg,
            (self.status, false),
            (self.callbacks, self.on_double_tap_trigger1, self.on_double_tap_trigger2, out),
            events,
        );
        OneShot {
            status: oneshot_run(cfg, (self.status, false), events).0,
            callbacks: c,
            on_double_tap_trigger1: d1,
            on_double_tap_trigger2: d2,
            ..*self
        }
    }
    /// The configuration, with the given one shot triggers of the keyboard.
    pub closed spec fn cfg(self, triggers: Seq<u32>) -> OneShotCfg {
        OneShotCfg {
            trigger1: self.trigger1,
            trigger2: self.trigger2,
            held_timeout: self.held_timeout,
            released_timeout: self.released_timeout,
            triggers: triggers,
        }
    }

    /// The configuration with any trigger list is the one with no trigger
    /// list, but for the list itself: triggers and timeouts do not depend
    /// on it.
    pub proof fn lemma_cfg_triggers(self, triggers: Seq<u32>)
        ensures
            self.cfg(triggers) == (OneShotCfg { triggers: triggers, ..self.cfg(Seq::empty()) }),
    {
    }

    /// The current status.
    pub closed spec fn current(self) -> OneShotStatus {
        self.status
    }

    /// The on/off callbacks.
    pub closed spec fn callbacks(self) -> M1 {
        self.callbacks
    }

    /// The actions for a double tap of the first and the second trigger.
    pub closed spec fn double_taps(self) -> (M2, M3) {
        (self.on_double_tap_trigger1, self.on_double_tap_trigger2)
    }

    pub fn new<T1: AcceptsKeycode, T2: AcceptsKeycode>(
        trigger1: T1,
        trigger2: T2,
        callbacks: M1,
        on_double_tap_trigger1: M2,
        on_double_tap_trigger2: M3,
        held_timeout: u16,
        released_timeout: u16,
    ) -> (r: OneShot<M1, M2, M3>)
        ensures
            r.cfg(Seq::empty()) == (OneShotCfg {
                trigger1: trigger1.keycode_spec(),
                trigger2: trigger2.keycode_spec(),
                held_timeout: held_timeout,
                released_timeout: released_timeout,
                triggers: Seq::empty(),
            }),
            r.current() == OneShotStatus::Off,
            r.callbacks() == callbacks,
            r.double_taps() == (on_double_tap_trigger1, on_double_tap_trigger2),
    {
        OneShot {
            trigger1: trigger1.to_u32(),
            trigger2: trigger2.to_u32(),
            callbacks,
            on_double_tap_trigger1,
            on_double_tap_trigger2,
            status: OneShotStatus::Off,
            held_timeout,
            released_timeout,
        }
    }
}

impl<M1: OnOff, M2: Action, M3: Action> ProcessKeys for OneShot<M1, M2, M3> {
    open spec fn processes(&self, events: Seq<(Event, EventStatus)>, out: OutView) -> (
        Seq<(Event, EventStatus)>,
        OutView,
        HandlerResult,
    ) {
        let cfg = self.cfg(out.triggers);
        (
            events.map_values(|e: (Event, EventStatus)| oneshot_event(cfg, e)),
            oneshot_calls(
                cfg,
                (self.current(), false),
                (self.callbacks(), self.double_taps().0, self.double_taps().1, out),
                events,
            ).3,
            HandlerResult::NoOp,
        )
    }

    closed spec fn behaviour(&self, calls: Seq<Call>) -> Seq<CallResult>
        decreases calls.len(),
    {
        if calls.len() == 0 {
            Seq::empty()
        } else {
            seq![self.processes(calls[0].0, calls[0].1)] + self.after_run(calls[0].0, calls[0].1).behaviour(calls.drop_first())
        }
    }


    fn process_keys(
        &mut self,
        events: &mut Vec<(Event, EventStatus)>,
        output: &mut KeyOutCatcher,
    ) -> (r: HandlerResult)
        ensures
            r == HandlerResult::NoOp,
            final(self).cfg(Seq::empty()) == old(self).cfg(Seq::empty()),
            final(self).current() == oneshot_run(
                old(self).cfg(old(output).kb().oneshot_triggers()),
                (old(self).current(), false),
                old(events)@,
            ).0,
            ({
                let (c, d1, d2, o) = oneshot_calls(
                    old(self).cfg(old(output).kb().oneshot_triggers()),
                    (old(self).current(), false),
                    (old(self).callbacks(), old(self).double_taps().0, old(self).double_taps().1, old(output)@),
                    old(events)@,
                );
                &&& final(self).callbacks() == c
                &&& final(self).double_taps() == (d1, d2)
                &&& final(output)@ == o
            }),
            final(events)@.len() == old(events)@.len(),
            forall|i: int|
                0 <= i < old(events)@.len() ==> #[trigger] final(events)@[i] == oneshot_event(
                    old(self).cfg(old(output).kb().oneshot_triggers()),
                    old(events)@[i],
                ),
    {
        let triggers = output.ro_state().oneshot_trigger_list();
        let ghost cfg = self.cfg(triggers@);
        let n = events.len();
        let mut i: usize = 0;
        let mut used_here = false;
        while i < n
            invariant
                n == events@.len(),
                n == old(events)@.len(),
                i <= n,
                cfg == old(self).cfg(triggers@),
                self.cfg(Seq::empty()) == old(self).cfg(Seq::empty()),
                (self.status, used_here) == oneshot_run(
                    cfg,
                    (old(self).status, false),
                    old(events)@.subrange(0, i as int),
                ),
                (self.callbacks, self.on_double_tap_trigger1, self.on_double_tap_trigger2, output@)
                    == oneshot_calls(
                    cfg,
                    (old(self).status, false),
                    (
                        old(self).callbacks,
                        old(self).on_double_tap_trigger1,
                        old(self).on_double_tap_trigger2,
                        old(output)@,
                    ),
                    old(events)@.subrange(0, i as int),
                ),
                forall|j: int|
                    0 <= j < i ==> #[trigger] events@[j] == oneshot_event(cfg, old(events)@[j]),
                forall|j: int| i <= j < n ==> #[trigger] events@[j] == old(events)@[j],
            decreases n - i,
        {
            // a sticky key
            // on press if not active -> active
            // on other key release -> deactivate
            // on press if active -> deactivate
            let (event, status) = events[i];
            if status == EventStatus::Unhandled {
                match event {
                    Event::KeyPress(kc) => {
                        if kc.keycode == self.trigger1 || kc.keycode == self.trigger2 {
                            events.set(i, (event, EventStatus::Handled));
                            match self.status {
                                OneShotStatus::Triggered => {
                                    self.status = OneShotStatus::Off;
                                    self.callbacks.on_deactivate(output);
                                    if kc.keycode == self.trigger1 {
                                        self.on_double_tap_trigger1.on_trigger(output);
                                    } else if kc.keycode == self.trigger2 {
                                        self.on_double_tap_trigger2.on_trigger(output);
                                    }
                                },
                                OneShotStatus::Off => {
                                    self.status = OneShotStatus::Held;
                                    self.callbacks.on_activate(output);
                                },
                                OneShotStatus::Held
                                | OneShotStatus::HeldUsed
                                | OneShotStatus::TriggerUsed => {},
                            }
                        } else if !contains_code(&triggers, kc.keycode) {
                            match self.status {
                                OneShotStatus::Triggered => {
                                    self.status = OneShotStatus::TriggerUsed;
                                    used_here = true;
                                },
                                OneShotStatus::TriggerUsed => {
                                    self.status = OneShotStatus::Off;
                                    self.callbacks.on_deactivate(output);
                                },
                                _ => {},
                            }
                        }
                    },
                    Event::KeyRelease(kc) => {
                        if kc.keycode == self.trigger1 || kc.keycode == self.trigger2 {
                            match self.status {
                                OneShotStatus::Held => {
                                    if self.held_timeout > 0 && kc.ms_since_last >= self.held_timeout {
                                        self.status = OneShotStatus::Off;
                                        self.callbacks.on_deactivate(output);
                                    } else {
                                        self.status = OneShotStatus::Triggered;
                                    }
                                },
                                OneShotStatus::HeldUsed => {
                                    self.status = OneShotStatus::Off;
                                    self.callbacks.on_deactivate(output);
                                },
                                _ => {},
                            }
                            events.set(i, (event, EventStatus::Handled));
                        } else if !contains_code(&triggers, kc.keycode) {
                            match self.status {
                                OneShotStatus::Triggered => {
                                    self.status = OneShotStatus::Off;
                                    self.callbacks.on_deactivate(output);
                                },
                                OneShotStatus::TriggerUsed => {
                                    if used_here {
                                        self.status = OneShotStatus::Off;
                                        self.callbacks.on_deactivate(output);
                                    }
                                },
                                OneShotStatus::Held => self.status = OneShotStatus::HeldUsed,
                                _ => {},
                            }
                        }
                    },
                    Event::TimeOut(ms) => {
                        if self.status == OneShotStatus::Triggered {
                            if self.released_timeout > 0 && ms >= self.released_timeout {
                                self.status = OneShotStatus::Off;
                                self.callbacks.on_deactivate(output);
                            }
                        }
                    },
                }
            }
            proof {
                assert(old(events)@.subrange(0, i + 1).drop_last() =~= old(events)@.subrange(0, i as int));
                assert(old(events)@.subrange(0, i + 1).last() == old(events)@[i as int]);
            }
            i += 1;
        }
        assert(old(events)@.subrange(0, n as int) =~= old(events)@);
        assert(events@ =~= old(events)@.map_values(|e: (Event, EventStatus)| oneshot_event(cfg, e)));
        proof {
            assert forall|calls: Seq<Call>|
                calls.len() > 0 implies #[trigger] self.behaviour(calls)[0] == self.processes(
                calls[0].0,
                calls[0].1,
            ) by {
            lemma_prepend_call(
                calls[0],
                calls.drop_first(),
                self.processes(calls[0].0, calls[0].1),
                self.after_run(calls[0].0, calls[0].1).behaviour(calls.drop_first()),
            );
            }
            assert forall|calls: Seq<Call>|
                calls.len() > 0 implies #[trigger] old(self).behaviour(calls)[0] == old(self).processes(
                calls[0].0,
                calls[0].1,
            ) by {
            lemma_prepend_call(
                calls[0],
                calls.drop_first(),
                old(self).processes(calls[0].0, calls[0].1),
                old(self).after_run(calls[0].0, calls[0].1).behaviour(calls.drop_first()),
            );
            }
            let x = (old(events)@, old(output)@);
            assert(*self == old(self).after_run(x.0, x.1));
            assert forall|calls: Seq<Call>|
                #[trigger] self.behaviour(calls) == old(self).behaviour(seq![x] + calls).drop_first() by {
                lemma_prepend_call(x, calls, old(self).processes(x.0, x.1), self.behaviour(calls));
            }
        }
        HandlerResult::NoOp
    }

    /// Both triggers of a one shot are one shot triggers.
    open spec fn trigger_codes(&self) -> Seq<u32> {
        seq![self.cfg(Seq::empty()).trigger1, self.cfg(Seq::empty()).trigger2]
    }

    /// Both triggers of a one shot are one shot triggers.
    fn oneshot_triggers(&self) -> (r: Vec<u32>)
        ensures
            r@ == seq![self.cfg(Seq::empty()).trigger1, self.cfg(Seq::empty()).trigger2],
    {
        let mut r: Vec<u32> = Vec::new();
        r.push(self.trigger1);
        r.push(self.trigger2);
        r
    }

    fn default_enabled(&self) -> (r: bool) {
        true
    }
}


proof fn lemma_oneshot_run_short(
    cfg: OneShotCfg,
    st: (OneShotStatus, bool),
    a: (Event, EventStatus),
    b: (Event, EventStatus),
)
    ensures
        oneshot_run(cfg, st, seq![a]) == oneshot_step(cfg, st, a),
        oneshot_run(cfg, st, seq![a, b]) == oneshot_step(cfg, oneshot_step(cfg, st, a), b),
{
    let one = seq![a];
    let two = seq![a, b];
    assert(one.drop_last() =~= Seq::<(Event, EventStatus)>::empty());
    assert(oneshot_run(cfg, st, Seq::<(Event, EventStatus)>::empty()) == st);
    assert(one.last() == a);
    assert(two.drop_last() =~= one);
    assert(two.last() == b);
}

/// Law: a one shot modifies exactly the next key. Pressing a trigger
/// activates it (Held); releasing the trigger in time leaves it active
/// (Triggered). The press of another key (neither this trigger nor another
/// one shot's) uses it (TriggerUsed), and the release of that key turns it
/// off, also when press and release come in one batch. Where the press was
/// handled in an earlier call (a held key), the release alone leaves it
/// active, so that a key sent on release is still modified, and the key's
/// press, seen again in the next call, turns it off. A release of another
/// key while Triggered (a key pressed before) turns it off. Pressing the
/// trigger again instead turns it off (a double tap), and so does a
/// released timeout, or holding the trigger for at least the held timeout.
pub proof fn law_oneshot_next_key(
    cfg: OneShotCfg,
    press_t: Key,
    release_t: Key,
    press_k: Key,
    release_k: Key,
    ms: u16,
)
    requires
        is_own_trigger(cfg, press_t.keycode),
        is_own_trigger(cfg, release_t.keycode),
        !is_own_trigger(cfg, press_k.keycode),
        !cfg.triggers.contains(press_k.keycode),
        !is_own_trigger(cfg, release_k.keycode),
        !cfg.triggers.contains(release_k.keycode),
    ensures
        ({
            let pt = (Event::KeyPress(press_t), EventStatus::Unhandled);
            let rt = (Event::KeyRelease(release_t), EventStatus::Unhandled);
            let pk = (Event::KeyPress(press_k), EventStatus::Unhandled);
            let rk = (Event::KeyRelease(release_k), EventStatus::Unhandled);
            let timeout = (Event::TimeOut(ms), EventStatus::Unhandled);
            let held = oneshot_run(cfg, (OneShotStatus::Off, false), seq![pt]);
            let triggered = oneshot_run(cfg, held, seq![rt]);
            let used = oneshot_run(cfg, triggered, seq![pk]);
            let used_before = (OneShotStatus::TriggerUsed, false);
            &&& held.0 == OneShotStatus::Held
            &&& (cfg.held_timeout == 0 || release_t.ms_since_last < cfg.held_timeout) ==> {
                &&& triggered.0 == OneShotStatus::Triggered
                &&& used.0 == OneShotStatus::TriggerUsed
                &&& oneshot_run(cfg, used, seq![rk]).0 == OneShotStatus::Off
                &&& oneshot_run(cfg, triggered, seq![pk, rk]).0 == OneShotStatus::Off
                &&& oneshot_run(cfg, used_before, seq![rk]).0 == OneShotStatus::TriggerUsed
                &&& oneshot_run(cfg, used_before, seq![pk, rk]).0 == OneShotStatus::Off
                &&& oneshot_run(cfg, triggered, seq![pt]).0 == OneShotStatus::Off
                &&& oneshot_run(cfg, triggered, seq![rk]).0 == OneShotStatus::Off
                &&& (cfg.released_timeout > 0 && ms >= cfg.released_timeout) ==> oneshot_run(
                    cfg,
                    triggered,
                    seq![timeout],
                ).0 == OneShotStatus::Off
            }
            &&& (cfg.held_timeout > 0 && release_t.ms_since_last >= cfg.held_timeout) ==> triggered.0
                == OneShotStatus::Off
        }),
{
    let pt = (Event::KeyPress(press_t), EventStatus::Unhandled);
    let rt = (Event::KeyRelease(release_t), EventStatus::Unhandled);
    let pk = (Event::KeyPress(press_k), EventStatus::Unhandled);
    let rk = (Event::KeyRelease(release_k), EventStatus::Unhandled);
    let timeout = (Event::TimeOut(ms), EventStatus::Unhandled);
    let used_before = (OneShotStatus::TriggerUsed, false);
    lemma_oneshot_run_short(cfg, (OneShotStatus::Off, false), pt, pt);
    let held = oneshot_run(cfg, (OneShotStatus::Off, false), seq![pt]);
    lemma_oneshot_run_short(cfg, held, rt, rt);
    let triggered = oneshot_run(cfg, held, seq![rt]);
    lemma_oneshot_run_short(cfg, triggered, pk, rk);
    lemma_oneshot_run_short(cfg, triggered, pt, pt);
    lemma_oneshot_run_short(cfg, triggered, rk, rk);
    lemma_oneshot_run_short(cfg, triggered, timeout, timeout);
    let used = oneshot_run(cfg, triggered, seq![pk]);
    lemma_oneshot_run_short(cfg, used, rk, rk);
    lemma_oneshot_run_short(cfg, used_before, pk, rk);
    lemma_oneshot_run_short(cfg, used_before, rk, rk);
}

/// 1 if the one shot is active in status `st`, else 0.
pub open spec fn active_count(st: OneShotStatus) -> nat {
    if st != OneShotStatus::Off {
        1
    } else {
        0
    }
}

/// Within one call, activations and deactivations balance: the
/// activations plus whether the one shot was active before equal the
/// deactivations plus whether it is active after.
pub proof fn law_oneshot_call_balance(
    cfg: OneShotCfg,
    st: (OneShotStatus, bool),
    events: Seq<(Event, EventStatus)>,
)
    ensures
        activation_count(cfg, st, events) + active_count(st.0) == deactivation_count(cfg, st, events)
            + active_count(oneshot_run(cfg, st, events).0),
    decreases events.len(),
{
    if events.len() > 0 {
        law_oneshot_call_balance(cfg, st, events.drop_last());
    }
}

/// The status of a one shot after successive `process_keys` calls, one
/// batch of events each (with the same one shot triggers).
pub open spec fn oneshot_over_calls(
    cfg: OneShotCfg,
    st: OneShotStatus,
    batches: Seq<Seq<(Event, EventStatus)>>,
) -> OneShotStatus
    decreases batches.len(),
{
    if batches.len() == 0 {
        st
    } else {
        oneshot_run(cfg, (oneshot_over_calls(cfg, st, batches.drop_last()), false), batches.last()).0
    }
}

/// How many times successive calls call on_activate.
pub open spec fn activations_over_calls(
    cfg: OneShotCfg,
    st: OneShotStatus,
    batches: Seq<Seq<(Event, EventStatus)>>,
) -> nat
    decreases batches.len(),
{
    if batches.len() == 0 {
        0
    } else {
        activations_over_calls(cfg, st, batches.drop_last()) + activation_count(
            cfg,
            (oneshot_over_calls(cfg, st, batches.drop_last()), false),
            batches.last(),
        )
    }
}

/// How many times successive calls call on_deactivate.
pub open spec fn deactivations_over_calls(
    cfg: OneShotCfg,
    st: OneShotStatus,
    batches: Seq<Seq<(Event, EventStatus)>>,
) -> nat
    decreases batches.len(),
{
    if batches.len() == 0 {
        0
    } else {
        deactivations_over_calls(cfg, st, batches.drop_last()) + deactivation_count(
            cfg,
            (oneshot_over_calls(cfg, st, batches.drop_last()), false),
            batches.last(),
        )
    }
}

/// Law: on_activate and on_deactivate alternate, starting with
/// on_activate, over any sequence of `process_keys` calls from Off (as
/// after `OneShot::new`): the one shot is active exactly when it was
/// activated once more than it was deactivated, and off exactly when both
/// happened equally often.
pub proof fn law_oneshot_on_off_alternate(cfg: OneShotCfg, batches: Seq<Seq<(Event, EventStatus)>>)
    ensures
        oneshot_over_calls(cfg, OneShotStatus::Off, batches) == OneShotStatus::Off
            ==> activations_over_calls(cfg, OneShotStatus::Off, batches) == deactivations_over_calls(
            cfg,
            OneShotStatus::Off,
            batches,
        ),
        oneshot_over_calls(cfg, OneShotStatus::Off, batches) != OneShotStatus::Off
            ==> activations_over_calls(cfg, OneShotStatus::Off, batches) == deactivations_over_calls(
            cfg,
            OneShotStatus::Off,
            batches,
        ) + 1,
    decreases batches.len(),
{
    if batches.len() > 0 {
        let before = batches.drop_last();
        law_oneshot_on_off_alternate(cfg, before);
        law_oneshot_call_balance(
            cfg,
            (oneshot_over_calls(cfg, OneShotStatus::Off, before), false),
            batches.last(),
        );
    }
}

/// Law: a one shot changes the status of its own triggers' key events
/// only (to Handled); every other event, the keys of other one shots
/// included, keeps its status.
pub proof fn law_oneshot_only_own_triggers(cfg: OneShotCfg, entry: (Event, EventStatus))
    ensures
        oneshot_event(cfg, entry).0 == entry.0,
        oneshot_event(cfg, entry) != entry ==> entry.1 == EventStatus::Unhandled
            && oneshot_event(cfg, entry).1 == EventStatus::Handled && match entry.0 {
            Event::KeyPress(kc) => is_own_trigger(cfg, kc.keycode),
            Event::KeyRelease(kc) => is_own_trigger(cfg, kc.keycode),
            Event::TimeOut(_) => false,
        },
{
}

/// Law: on_activate and on_deactivate alternate event by event. An event
/// that turns the one shot on (from Off) always calls on_activate, one
/// that turns it off always calls on_deactivate, and no other event calls
/// either: on_activate only comes while off, on_deactivate only while on.
pub proof fn law_oneshot_step_alternates(cfg: OneShotCfg, st: (OneShotStatus, bool), entry: (Event, EventStatus))
    ensures
        ({
            let next = oneshot_step(cfg, st, entry).0;
            &&& activates(cfg, st, entry) <==> (st.0 == OneShotStatus::Off && next != OneShotStatus::Off)
            &&& deactivates(cfg, st, entry) <==> (st.0 != OneShotStatus::Off && next == OneShotStatus::Off)
        }),
{
}

} // verus!
