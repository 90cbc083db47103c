//! Space cadet keys: one action on tap, an on/off while held with other keys.
use vstd::prelude::*;
use crate::handlers::{Call, CallResult, lemma_prepend_call};
use crate::handlers::{Action, HandlerResult, OnOff, ProcessKeys};
use crate::key_codes::AcceptsKeycode;
use crate::key_stream::{Event, EventStatus, Key};
use crate::output::{KeyOutCatcher, OutView};

verus! {

#[derive(PartialEq, Eq, Structural, Debug, Clone, Copy)]
pub enum SpaceCadetState {
    /// not triggered
    Base,
    /// could be either a tap or an on/off
    Pressed,
    /// an on/off
    Activated,
    /// must be a tap
    PressedTap,
}

/// The state of a space cadet after one event, and whether a key other
/// than the trigger has been pressed in the base state during this run.
pub open spec fn cadet_step(
    trigger: u32,
    minimum_depress_ms: u16,
    st: (SpaceCadetState, bool),
    entry: (Event, EventStatus),
) -> (SpaceCadetState, bool) {
    let (state, any_other_seen) = st;
    if entry.1 != EventStatus::Unhandled {
        st
    } else {
        match entry.0 {
            Event::KeyPress(kc) => if kc.keycode == trigger {
                if kc.flag & 1 == 0 {
                    if any_other_seen {
                        (SpaceCadetState::Base, any_other_seen)
                    } else {
                        (SpaceCadetState::Pressed, any_other_seen)
                    }
                } else {
                    st
                }
            } else {
                match state {
                    SpaceCadetState::Pressed => if kc.ms_since_last >= minimum_depress_ms {
                        (SpaceCadetState::Activated, any_other_seen)
                    } else {
                        (SpaceCadetState::Base, any_other_seen)
                    },
                    SpaceCadetState::Base => (SpaceCadetState::Base, true),
                    _ => st,
                }
            },
            Event::KeyRelease(kc) => if kc.keycode == trigger {
                match state {
                    SpaceCadetState::Pressed => (SpaceCadetState::Base, any_other_seen),
                    SpaceCadetState::Activated => (SpaceCadetState::Base, any_other_seen),
                    _ => st,
                }
            } else {
                st
            },
            Event::TimeOut(_) => st,
        }
    }
}

/// The state of a space cadet after a list of events, oldest first.
pub open spec fn cadet_run(
    trigger: u32,
    minimum_depress_ms: u16,
    st: (SpaceCadetState, bool),
    events: Seq<(Event, EventStatus)>,
) -> (SpaceCadetState, bool)
    decreases events.len(),
{
    if events.len() == 0 {
        st
    } else {
        cadet_step(
            trigger,
            minimum_depress_ms,
            cadet_run(trigger, minimum_depress_ms, st, events.drop_last()),
            events.last(),
        )
    }
}

/// The action, the on/off and the output after one event, given the state
/// before it: a tap calls the action (on the release, or right away when
/// another key came first in the run, or when another key follows too
/// quickly); holding the trigger while another key is pressed calls
/// on_activate, and its release then on_deactivate.
pub open spec fn cadet_call<MAction: Action, MOnOff: OnOff>(
    trigger: u32,
    minimum_depress_ms: u16,
    st: (SpaceCadetState, bool),
    cb: (MAction, MOnOff, OutView),
    entry: (Event, EventStatus),
) -> (MAction, MOnOff, OutView) {
    let act = {
        let (a, o) = cb.0.trigger_spec(cb.2);
        (a, cb.1, o)
    };
    let on = {
        let (f, o) = cb.1.activate_spec(cb.2);
        (cb.0, f, o)
    };
    let off = {
        let (f, o) = cb.1.deactivate_spec(cb.2);
        (cb.0, f, o)
    };
    if entry.1 != EventStatus::Unhandled {
        cb
    } else {
        match entry.0 {
            Event::KeyPress(kc) => if kc.keycode == trigger {
                if kc.flag & 1 == 0 && st.1 {
                    act
                } else {
                    cb
                }
            } else if st.0 == SpaceCadetState::Pressed {
                if kc.ms_since_last >= minimum_depress_ms {
                    on
                } else {
                    act
                }
            } else {
                cb
            },
            Event::KeyRelease(kc) => if kc.keycode == trigger {
                match st.0 {
                    SpaceCadetState::Pressed => act,
                    SpaceCadetState::Activated => off,
                    _ => cb,
                }
            } else {
                cb
            },
            Event::TimeOut(_) => cb,
        }
    }
}

/// The action, the on/off and the output after a list of events, oldest first.
pub open spec fn cadet_calls<MAction: Action, MOnOff: OnOff>(
    trigger: u32,
    minimum_depress_ms: u16,
    st: (SpaceCadetState, bool),
    cb: (MAction, MOnOff, OutView),
    events: Seq<(Event, EventStatus)>,
) -> (MAction, MOnOff, OutView)
    decreases events.len(),
{
    if events.len() == 0 {
        cb
    } else {
        cadet_call(
            trigger,
            minimum_depress_ms,
            cadet_run(trigger, minimum_depress_ms, st, events.drop_last()),
            cadet_calls(trigger, minimum_depress_ms, st, cb, events.drop_last()),
            events.last(),
        )
    }
}

/// A space cadet consumes the presses of its trigger; releases pass on.
pub open spec fn cadet_event(trigger: u32, entry: (Event, EventStatus)) -> (Event, EventStatus) {
    if entry.1 == EventStatus::Unhandled && (entry.0 matches Event::KeyPress(kc) && kc.keycode
        == trigger) {
        (entry.0, EventStatus::Handled)
    } else {
        entry
    }
}

/// SpaceCadet keys are keys that do one Action on tap, and an OnOff if
/// held down while the next key is pressed.
///
/// There is a minimum time the key needs to be held,
/// `minimum_depress_ms`; this allows fast typing where the next key is hit
/// before the previous one has been released.
///
/// They need to be added before the layer they toggle (if used with a
/// layer), so use keyboard.future_handler_id(2) for the handler id in
/// premade::space_cadet_handler.
///
/// If you want a premade::one_shot_* (modifier) to work correctly with a
/// space cadet, the one shot must come first in the list of handlers.
pub struct SpaceCadet<MAction, MOnOff> {
    trigger: u32,
    action: MAction,
    onoff: MOnOff,
    state: SpaceCadetState,
    pub minimum_depress_ms: u16,
}

impl<MAction: Action, MOnOff: OnOff> SpaceCadet<MAction, MOnOff> {

    /// The handler after a `process_keys` call on these events and output.
    pub closed spec fn after_run(&self, events: Seq<(Event, EventStatus)>, out: OutView) -> Self {
        let (a, f, o) = cadet_calls(
            self.trigger,
            self.minimum_depress_ms,
            (self.state, false),
            (self.action, self.onoff, out),
            events,
        );
        SpaceCadet {
            action: a,
            onoff: f,
            state: cadet_run(self.trigger, self.minimum_depress_ms, (self.state, false), events).0,
            ..*self
        }
    }
    /// The trigger key code.
    pub closed spec fn trigger_code(self) -> u32 {
        self.trigger
    }

    /// The current state.
    pub closed spec fn current(self) -> SpaceCadetState {
        self.state
    }

    /// The minimum time the trigger must be held before another key press.
    pub closed spec fn min_depress(self) -> u16 {
        self.minimum_depress_ms
    }

    /// The tap action and the on/off callbacks.
    pub closed spec fn callbacks(self) -> (MAction, MOnOff) {
        (self.action, self.onoff)
    }

    pub fn new<T: AcceptsKeycode>(trigger: T, action: MAction, onoff: MOnOff) -> (r: SpaceCadet<MAction, MOnOff>)
        ensures
            r.trigger_code() == trigger.keycode_spec(),
            r.current() == SpaceCadetState::Base,
            r.min_depress() == 100,
            r.callbacks() == (action, onoff),
    {
        SpaceCadet {
            trigger: trigger.to_u32(),
            action,
            onoff,
            state: SpaceCadetState::Base,
            minimum_depress_ms: 100,
        }
    }

    /// The minimum time the trigger must be held before another key press.
    pub fn minimum_depress(&self) -> (r: u16)
        ensures
            r == self.min_depress(),
    {
        self.minimum_depress_ms
    }
}

impl<MAction: Action, MOnOff: OnOff> ProcessKeys for SpaceCadet<MAction, MOnOff> {
    open spec fn processes(&self, events: Seq<(Event, EventStatus)>, out: OutView) -> (
        Seq<(Event, EventStatus)>,
        OutView,
        HandlerResult,
    ) {
        (
            events.map_values(|e: (Event, EventStatus)| cadet_event(self.trigger_code(), e)),
            cadet_calls(
                self.trigger_code(),
                self.min_depress(),
                (self.current(), false),
                (self.callbacks().0, self.callbacks().1, out),
                events,
            ).2,
            HandlerResult::NoOp,
        )
    }

    closed spec fn behaviour(&self, calls: Seq<Call>) -> Seq<CallResult>
        decreases calls.len(),
    {
        if calls.len() == 0 {
            Seq::empty()
        } else {
            seq![self.processes(calls[0].0, calls[0].1)] + self.after_run(calls[0].0, calls[0].1).behaviour(calls.drop_first())
        }
    }


    /// A tap of the trigger calls the action on release. A press of another
    /// key while the trigger is held for at least the minimum time calls
    /// on_activate (on_deactivate follows at the trigger's release); a
    /// quicker press calls the action instead. A trigger press after
    /// another key in the same run calls the action right away.
    fn process_keys(
        &mut self,
        events: &mut Vec<(Event, EventStatus)>,
        output: &mut KeyOutCatcher,
    ) -> (r: HandlerResult)
        ensures
            r == HandlerResult::NoOp,
            final(self).trigger_code() == old(self).trigger_code(),
            final(self).min_depress() == old(self).min_depress(),
            final(self).current() == cadet_run(
                old(self).trigger_code(),
                old(self).min_depress(),
                (old(self).current(), false),
                old(events)@,
            ).0,
            ({
                let (a, f, o) = cadet_calls(
                    old(self).trigger_code(),
                    old(self).min_depress(),
                    (old(self).current(), false),
                    (old(self).callbacks().0, old(self).callbacks().1, old(output)@),
                    old(events)@,
                );
                &&& final(self).callbacks() == (a, f)
                &&& final(output)@ == o
            }),
            final(events)@.len() == old(events)@.len(),
            forall|i: int|
                0 <= i < old(events)@.len() ==> #[trigger] final(events)@[i] == cadet_event(
                    old(self).trigger_code(),
                    old(events)@[i],
                ),
    {
        let mut any_other_seen = false;
        let n = events.len();
        let mut i: usize = 0;
        while i < n
            invariant
                n == events@.len(),
                n == old(events)@.len(),
                i <= n,
                self.trigger == old(self).trigger,
                self.minimum_depress_ms == old(self).minimum_depress_ms,
                (self.state, any_other_seen) == cadet_run(
                    self.trigger,
                    self.minimum_depress_ms,
                    (old(self).state, false),
                    old(events)@.subrange(0, i as int),
                ),
                (self.action, self.onoff, output@) == cadet_calls(
                    self.trigger,
                    self.minimum_depress_ms,
                    (old(self).state, false),
                    (old(self).action, old(self).onoff, old(output)@),
                    old(events)@.subrange(0, i as int),
                ),
                forall|j: int|
                    0 <= j < i ==> #[trigger] events@[j] == cadet_event(self.trigger, old(events)@[j]),
                forall|j: int| i <= j < n ==> #[trigger] events@[j] == old(events)@[j],
            decreases n - i,
        {
            let (event, status) = events[i];
            if status == EventStatus::Unhandled {
                match event {
                    Event::KeyPress(kc) => {
                        if kc.keycode == self.trigger {
                            if kc.flag & 0x1 == 0 {
                                //the flag prevents rewritten keys from triggering again
                                if any_other_seen {
                                    self.state = SpaceCadetState::PressedTap;
                                    self.action.on_trigger(output);
                                    self.state = SpaceCadetState::Base;
                                } else {
                                    self.state = SpaceCadetState::Pressed;
                                }
                            }
                            events.set(i, (event, EventStatus::Handled));
                        } else {
                            match self.state {
                                SpaceCadetState::Pressed => {
                                    if kc.ms_since_last >= self.minimum_depress_ms {
                                        self.state = SpaceCadetState::Activated;
                                        self.onoff.on_activate(output);
                                    } else {
                                        //a 'botched' activation
                                        self.action.on_trigger(output);
                                        self.state = SpaceCadetState::Base;
                                    }
                                },
                                SpaceCadetState::Base => {
                                    any_other_seen = true;
                                },
                                _ => {},
                            }
                        }
                    },
                    Event::KeyRelease(kc) => {
                        if kc.keycode == self.trigger {
                            match self.state {
                                SpaceCadetState::Pressed => {
                                    self.action.on_trigger(output);
                                    self.state = SpaceCadetState::Base;
                                },
                                SpaceCadetState::Activated => {
                                    self.state = SpaceCadetState::Base;
                                    self.onoff.on_deactivate(output);
                                },
                                SpaceCadetState::Base | SpaceCadetState::PressedTap => {},
                            }
                        }
                    },
                    Event::TimeOut(_) => {},
                }
            }
            proof {
                assert(old(events)@.subrange(0, i + 1).drop_last() =~= old(events)@.subrange(0, i as int));
                assert(old(events)@.subrange(0, i + 1).last() == old(events)@[i as int]);
            }
            i += 1;
        }
        assert(old(events)@.subrange(0, n as int) =~= old(events)@);
        assert(events@ =~= old(events)@.map_values(
            |e: (Event, EventStatus)| cadet_event(old(self).trigger_code(), e),
        ));
        proof {
            assert forall|calls: Seq<Call>|
                calls.len() > 0 implies #[trigger] self.behaviour(calls)[0] == self.processes(
                calls[0].0,
                calls[0].1,
            ) by {
            lemma_prepend_call(
                calls[0],
                calls.drop_first(),
                self.processes(calls[0].0, calls[0].1),
                self.after_run(calls[0].0, calls[0].1).behaviour(calls.drop_first()),
            );
            }
            assert forall|calls: Seq<Call>|
                calls.len() > 0 implies #[trigger] old(self).behaviour(calls)[0] == old(self).processes(
                calls[0].0,
                calls[0].1,
            ) by {
            lemma_prepend_call(
                calls[0],
                calls.drop_first(),
                old(self).processes(calls[0].0, calls[0].1),
                old(self).after_run(calls[0].0, calls[0].1).behaviour(calls.drop_first()),
            );
            }
            let x = (old(events)@, old(output)@);
            assert(*self == old(self).after_run(x.0, x.1));
            assert forall|calls: Seq<Call>|
                #[trigger] self.behaviour(calls) == old(self).behaviour(seq![x] + calls).drop_first() by {
                lemma_prepend_call(x, calls, old(self).processes(x.0, x.1), self.behaviour(calls));
            }
        }
        HandlerResult::NoOp
    }

    fn default_enabled(&self) -> (r: bool) {
        true
    }

    fn oneshot_triggers(&self) -> (r: Vec<u32>) {
        Vec::new()
    }
}


proof fn lemma_cadet_run_short(
    trigger: u32,
    min: u16,
    st: (SpaceCadetState, bool),
    a: (Event, EventStatus),
    b: (Event, EventStatus),
)
    ensures
        cadet_run(trigger, min, st, seq![a]) == cadet_step(trigger, min, st, a),
        cadet_run(trigger, min, st, seq![a, b]) == cadet_step(
            trigger,
            min,
            cadet_step(trigger, min, st, a),
            b,
        ),
{
    let one = seq![a];
    let two = seq![a, b];
    assert(one.drop_last() =~= Seq::<(Event, EventStatus)>::empty());
    assert(cadet_run(trigger, min, st, Seq::<(Event, EventStatus)>::empty()) == st);
    assert(one.last() == a);
    assert(two.drop_last() =~= one);
    assert(two.last() == b);
    assert(cadet_run(trigger, min, st, one) == cadet_step(trigger, min, st, a));
    assert(cadet_run(trigger, min, st, two) == cadet_step(
        trigger,
        min,
        cadet_run(trigger, min, st, two.drop_last()),
        two.last(),
    ));
}

/// Law: a tap of the trigger is a tap (Pressed, then Base again: the
/// action runs); holding the trigger while another key is pressed at least
/// `minimum_depress_ms` later activates the on/off (Activated) until the
/// trigger is released; another key pressed sooner makes it a plain key
/// again (Base: fast typing).
pub proof fn law_space_cadet_tap_or_hold(
    trigger: u32,
    min: u16,
    press_t: Key,
    release_t: Key,
    press_k: Key,
)
    requires
        press_t.keycode == trigger,
        press_t.flag & 1 == 0,
        release_t.keycode == trigger,
        press_k.keycode != trigger,
    ensures
        ({
            let pt = (Event::KeyPress(press_t), EventStatus::Unhandled);
            let rt = (Event::KeyRelease(release_t), EventStatus::Unhandled);
            let pk = (Event::KeyPress(press_k), EventStatus::Unhandled);
            let base = (SpaceCadetState::Base, false);
            let pressed = cadet_run(trigger, min, base, seq![pt]);
            &&& pressed == (SpaceCadetState::Pressed, false)
            &&& cadet_run(trigger, min, pressed, seq![rt]) == base
            &&& press_k.ms_since_last >= min ==> cadet_run(trigger, min, pressed, seq![pk])
                == (SpaceCadetState::Activated, false)
            &&& press_k.ms_since_last >= min ==> cadet_run(trigger, min, pressed, seq![pk, rt])
                == base
            &&& press_k.ms_since_last < min ==> cadet_run(trigger, min, pressed, seq![pk])
                == base
        }),
{
    let pt = (Event::KeyPress(press_t), EventStatus::Unhandled);
    let rt = (Event::KeyRelease(release_t), EventStatus::Unhandled);
    let pk = (Event::KeyPress(press_k), EventStatus::Unhandled);
    let base = (SpaceCadetState::Base, false);
    lemma_cadet_run_short(trigger, min, base, pt, pt);
    let pressed = cadet_run(trigger, min, base, seq![pt]);
    lemma_cadet_run_short(trigger, min, pressed, rt, rt);
    lemma_cadet_run_short(trigger, min, pressed, pk, rt);
}

/// Law: on_activate and on_deactivate alternate. The on/off is switched
/// on exactly when the space cadet enters Activated, and off exactly when
/// it leaves Activated; every other event leaves the on/off alone. (A new
/// press of the trigger while Activated, before its release, is left out:
/// it leaves Activated without on_deactivate.)
pub proof fn law_space_cadet_on_off<MAction: Action, MOnOff: OnOff>(
    trigger: u32,
    min: u16,
    st: (SpaceCadetState, bool),
    cb: (MAction, MOnOff, OutView),
    entry: (Event, EventStatus),
)
    requires
        !(st.0 == SpaceCadetState::Activated && entry.1 == EventStatus::Unhandled && (
        entry.0 matches Event::KeyPress(kc) && kc.keycode == trigger && kc.flag & 1 == 0)),
    ensures
        ({
            let next = cadet_step(trigger, min, st, entry).0;
            let after = cadet_call(trigger, min, st, cb, entry);
            &&& (st.0 != SpaceCadetState::Activated && next == SpaceCadetState::Activated) ==> (
            after.0 == cb.0 && (after.1, after.2) == cb.1.activate_spec(cb.2))
            &&& (st.0 == SpaceCadetState::Activated && next != SpaceCadetState::Activated) ==> (
            after.0 == cb.0 && (after.1, after.2) == cb.1.deactivate_spec(cb.2))
            &&& ((st.0 == SpaceCadetState::Activated) == (next == SpaceCadetState::Activated))
                ==> after.1 == cb.1
        }),
{
}

/// Whether the event makes `cadet_call` call on_activate: a press of
/// another key at least `min` ms after the trigger was pressed.
pub open spec fn cadet_on_call(trigger: u32, min: u16, st: (SpaceCadetState, bool), entry: (Event, EventStatus)) -> bool {
    &&& entry.1 == EventStatus::Unhandled
    &&& st.0 == SpaceCadetState::Pressed
    &&& entry.0 matches Event::KeyPress(kc) && kc.keycode != trigger && kc.ms_since_last >= min
}

/// Whether the event makes `cadet_call` call on_deactivate: the release of
/// the trigger while Activated.
pub open spec fn cadet_off_call(trigger: u32, st: (SpaceCadetState, bool), entry: (Event, EventStatus)) -> bool {
    &&& entry.1 == EventStatus::Unhandled
    &&& st.0 == SpaceCadetState::Activated
    &&& entry.0 matches Event::KeyRelease(kc) && kc.keycode == trigger
}

/// Whether the event is a new press of the trigger while Activated, that
/// is a second press of the trigger before its release.
pub open spec fn cadet_repress(trigger: u32, st: (SpaceCadetState, bool), entry: (Event, EventStatus)) -> bool {
    &&& st.0 == SpaceCadetState::Activated
    &&& entry.1 == EventStatus::Unhandled
    &&& entry.0 matches Event::KeyPress(kc) && kc.keycode == trigger && kc.flag & 1 == 0
}

/// Whether, in one call, the trigger is never pressed again while
/// Activated (presses and releases of the trigger alternate).
pub open spec fn cadet_no_repress(
    trigger: u32,
    min: u16,
    st: (SpaceCadetState, bool),
    events: Seq<(Event, EventStatus)>,
) -> bool
    decreases events.len(),
{
    if events.len() == 0 {
        true
    } else {
        cadet_no_repress(trigger, min, st, events.drop_last()) && !cadet_repress(
            trigger,
            cadet_run(trigger, min, st, events.drop_last()),
            events.last(),
        )
    }
}

/// How many on_activate and on_deactivate calls one call makes.
pub open spec fn cadet_on_off_counts(
    trigger: u32,
    min: u16,
    st: (SpaceCadetState, bool),
    events: Seq<(Event, EventStatus)>,
) -> (nat, nat)
    decreases events.len(),
{
    if events.len() == 0 {
        (0, 0)
    } else {
        let (on, off) = cadet_on_off_counts(trigger, min, st, events.drop_last());
        let before = cadet_run(trigger, min, st, events.drop_last());
        (
            on + if cadet_on_call(trigger, min, before, events.last()) {
                1nat
            } else {
                0nat
            },
            off + if cadet_off_call(trigger, before, events.last()) {
                1nat
            } else {
                0nat
            },
        )
    }
}

/// 1 if the on/off of a space cadet in state `st` is on, else 0.
pub open spec fn cadet_active(st: SpaceCadetState) -> nat {
    if st == SpaceCadetState::Activated {
        1
    } else {
        0
    }
}

/// Within one call without a second press of the trigger while Activated,
/// the on/off calls balance: on_activate calls plus whether it was on
/// before equal on_deactivate calls plus whether it is on after.
pub proof fn law_space_cadet_call_balance(
    trigger: u32,
    min: u16,
    st: (SpaceCadetState, bool),
    events: Seq<(Event, EventStatus)>,
)
    requires
        cadet_no_repress(trigger, min, st, events),
    ensures
        cadet_on_off_counts(trigger, min, st, events).0 + cadet_active(st.0) == cadet_on_off_counts(
            trigger,
            min,
            st,
            events,
        ).1 + cadet_active(cadet_run(trigger, min, st, events).0),
    decreases events.len(),
{
    if events.len() > 0 {
        law_space_cadet_call_balance(trigger, min, st, events.drop_last());
    }
}

/// The state of a space cadet after successive `process_keys` calls.
pub open spec fn cadet_over_calls(
    trigger: u32,
    min: u16,
    st: SpaceCadetState,
    batches: Seq<Seq<(Event, EventStatus)>>,
) -> SpaceCadetState
    decreases batches.len(),
{
    if batches.len() == 0 {
        st
    } else {
        cadet_run(trigger, min, (cadet_over_calls(trigger, min, st, batches.drop_last()), false), batches.last()).0
    }
}

/// Whether no call of the sequence presses the trigger again while Activated.
pub open spec fn cadet_no_repress_over_calls(
    trigger: u32,
    min: u16,
    st: SpaceCadetState,
    batches: Seq<Seq<(Event, EventStatus)>>,
) -> bool
    decreases batches.len(),
{
    if batches.len() == 0 {
        true
    } else {
        cadet_no_repress_over_calls(trigger, min, st, batches.drop_last()) && cadet_no_repress(
            trigger,
            min,
            (cadet_over_calls(trigger, min, st, batches.drop_last()), false),
            batches.last(),
        )
    }
}

/// How many on_activate and on_deactivate calls successive calls make.
pub open spec fn cadet_on_off_over_calls(
    trigger: u32,
    min: u16,
    st: SpaceCadetState,
    batches: Seq<Seq<(Event, EventStatus)>>,
) -> (nat, nat)
    decreases batches.len(),
{
    if batches.len() == 0 {
        (0, 0)
    } else {
        let (on, off) = cadet_on_off_over_calls(trigger, min, st, batches.drop_last());
        let (on1, off1) = cadet_on_off_counts(
            trigger,
            min,
            (cadet_over_calls(trigger, min, st, batches.drop_last()), false),
            batches.last(),
        );
        (on + on1, off + off1)
    }
}

/// Law: over any sequence of `process_keys` calls from Base (as after
/// `SpaceCadet::new`) in which the trigger's presses and releases
/// alternate, on_activate and on_deactivate alternate, starting with
/// on_activate: the on/off is on exactly when it was activated once more
/// than deactivated.
pub proof fn law_space_cadet_on_off_alternate(
    trigger: u32,
    min: u16,
    batches: Seq<Seq<(Event, EventStatus)>>,
)
    requires
        cadet_no_repress_over_calls(trigger, min, SpaceCadetState::Base, batches),
    ensures
        ({
            let (on, off) = cadet_on_off_over_calls(trigger, min, SpaceCadetState::Base, batches);
            let now = cadet_over_calls(trigger, min, SpaceCadetState::Base, batches);
            &&& now == SpaceCadetState::Activated ==> on == off + 1
            &&& now != SpaceCadetState::Activated ==> on == off
        }),
    decreases batches.len(),
{
    if batches.len() > 0 {
        let before = batches.drop_last();
        law_space_cadet_on_off_alternate(trigger, min, before);
        law_space_cadet_call_balance(
            trigger,
            min,
            (cadet_over_calls(trigger, min, SpaceCadetState::Base, before), false),
            batches.last(),
        );
    }
}

/// Law: `cadet_on_call` and `cadet_off_call` count exactly the events on
/// which a space cadet calls on_activate and on_deactivate: on every other
/// event the on/off is left alone.
pub proof fn law_space_cadet_on_off_calls<MAction: Action, MOnOff: OnOff>(
    trigger: u32,
    min: u16,
    st: (SpaceCadetState, bool),
    cb: (MAction, MOnOff, OutView),
    entry: (Event, EventStatus),
)
    ensures
        ({
            let after = cadet_call(trigger, min, st, cb, entry);
            &&& cadet_on_call(trigger, min, st, entry) ==> (after.0 == cb.0 && (after.1, after.2)
                == cb.1.activate_spec(cb.2))
            &&& cadet_off_call(trigger, st, entry) ==> (after.0 == cb.0 && (after.1, after.2)
                == cb.1.deactivate_spec(cb.2))
            &&& !cadet_on_call(trigger, min, st, entry) && !cadet_off_call(trigger, st, entry)
                ==> after.1 == cb.1
        }),
{
}

} // verus!
