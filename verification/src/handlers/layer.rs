//! Layers: rewrite key codes, or send strings, while they are enabled.
use vstd::prelude::*;
use crate::handlers::{Call, CallResult, lemma_prepend_call};
use crate::handlers::{HandlerResult, ProcessKeys, first_action, find_first};
use crate::handlers::rewrite_layer::rewritten;
use crate::key_codes::{AcceptsKeycode, KeyCode, keycode_value};
use crate::key_stream::{Event, EventStatus, Key};
use crate::output::{KeyOutCatcher, OutView, string_reports};
use crate::state::{Modifier, UnicodeSendMode};

verus! {

/// What a layer does with a key it maps.
#[derive(Clone, Copy)]
pub enum LayerAction<'a> {
    RewriteTo(u32),
    /// rewrite to the first code, or to the second one while shift is set
    RewriteToShifted(u32, u32),
    /// send the string on release
    SendString(&'a str),
    /// send the first string, or the second one while shift is set
    SendStringShifted(&'a str, &'a str),
}

/// When a layer turns itself off.
#[derive(Clone, Copy, PartialEq, Eq, Structural, Debug)]
pub enum AutoOff {
    No,
    /// after a key release the layer acted upon
    AfterMatch,
    /// after the release of a key that is neither a modifier nor a one shot trigger
    AfterNonModifier,
    /// after any key release
    AfterAll,
}

/// What a layer works with while it processes the events.
pub ghost struct LayerCfg<'a> {
    pub rewrites: Seq<(u32, LayerAction<'a>)>,
    pub auto_off: AutoOff,
    /// whether shift is set
    pub shift: bool,
    /// the one shot triggers of the keyboard state
    pub triggers: Seq<u32>,
    pub mode: UnicodeSendMode,
}

/// Whether a key code is one of the modifier keys LCtrl ..= RGui.
pub open spec fn is_modifier_code(code: u32) -> bool {
    keycode_value(KeyCode::LCtrl) <= code <= keycode_value(KeyCode::RGui)
}

/// What a layer does to one event: the new event, the reports it sends,
/// and whether the layer turns itself off.
pub open spec fn layer_step<'a>(cfg: LayerCfg<'a>, entry: (Event, EventStatus)) -> (
    (Event, EventStatus),
    Seq<Seq<u8>>,
    bool,
) {
    if entry.1 != EventStatus::Unhandled {
        (entry, Seq::empty(), false)
    } else {
        match entry.0 {
            Event::KeyRelease(kc) => {
                let (kc2, status, reports, happened) = match first_action(cfg.rewrites, kc.keycode) {
                    Some(LayerAction::RewriteTo(to)) => (
                        rewritten(kc, to),
                        entry.1,
                        Seq::empty(),
                        kc.flag & 2 == 0,
                    ),
                    Some(LayerAction::RewriteToShifted(to, to_shifted)) => (
                        rewritten(kc, if cfg.shift { to_shifted } else { to }),
                        entry.1,
                        Seq::empty(),
                        kc.flag & 2 == 0,
                    ),
                    Some(LayerAction::SendString(s)) => (
                        kc,
                        EventStatus::Handled,
                        string_reports(cfg.mode, s@),
                        true,
                    ),
                    Some(LayerAction::SendStringShifted(s1, s2)) => (
                        kc,
                        EventStatus::Handled,
                        string_reports(cfg.mode, if cfg.shift { s2@ } else { s1@ }),
                        true,
                    ),
                    None => (kc, entry.1, Seq::empty(), false),
                };
                let turn_off = match cfg.auto_off {
                    AutoOff::No => false,
                    AutoOff::AfterAll => true,
                    AutoOff::AfterMatch => happened,
                    AutoOff::AfterNonModifier => !cfg.triggers.contains(kc2.keycode)
                        && !is_modifier_code(kc2.keycode),
                };
                ((Event::KeyRelease(kc2), status), reports, turn_off)
            },
            Event::KeyPress(kc) => {
                match first_action(cfg.rewrites, kc.keycode) {
                    Some(LayerAction::RewriteTo(to)) => (
                        (Event::KeyPress(rewritten(kc, to)), entry.1),
                        Seq::empty(),
                        false,
                    ),
                    Some(LayerAction::RewriteToShifted(to, to_shifted)) => (
                        (
                            Event::KeyPress(rewritten(kc, if cfg.shift { to_shifted } else { to })),
                            entry.1,
                        ),
                        Seq::empty(),
                        false,
                    ),
                    Some(LayerAction::SendString(_)) | Some(LayerAction::SendStringShifted(_, _)) => (
                        (entry.0, EventStatus::Handled),
                        Seq::empty(),
                        false,
                    ),
                    None => (entry, Seq::empty(), false),
                }
            },
            Event::TimeOut(_) => (entry, Seq::empty(), false),
        }
    }
}

/// The reports a layer sends for a list of events, oldest first.
pub open spec fn layer_reports<'a>(cfg: LayerCfg<'a>, events: Seq<(Event, EventStatus)>) -> Seq<
    Seq<u8>,
>
    decreases events.len(),
{
    if events.len() == 0 {
        Seq::empty()
    } else {
        layer_reports(cfg, events.drop_last()) + layer_step(cfg, events.last()).1
    }
}

/// A layer either rewrites a key to another one or outputs a string upon
/// key release.
///
/// It does this for multiple mappings at once, and it can consider the
/// shift state, which is very useful for unicode characters with lower and
/// upper case. Only the first mapping of a key code applies, and a key
/// that a layer rewrote already is not rewritten again.
///
/// Layers keep their mappings in ram; consider a RewriteLayer if you don't
/// need the string or shift functionality.
///
/// If AutoOff is set to anything but AutoOff::No, the layer turns itself
/// off after any key release (AfterAll), after a non-modifier-non-oneshot
/// key release (AfterNonModifier), or after a successful match (AfterMatch).
pub struct Layer<'a> {
    rewrites: Vec<(u32, LayerAction<'a>)>,
    auto_off: AutoOff,
}

impl<'a> Layer<'a> {
    /// The mappings, from key code to action.
    pub closed spec fn mappings(self) -> Seq<(u32, LayerAction<'a>)> {
        self.rewrites@
    }

    /// When the layer turns itself off.
    pub closed spec fn turns_off(self) -> AutoOff {
        self.auto_off
    }

    pub fn new<F: AcceptsKeycode>(rewrites: Vec<(F, LayerAction<'a>)>, auto_off: AutoOff) -> (r: Layer<'a>)
        ensures
            r.mappings().len() == rewrites@.len(),
            forall|i: int|
                0 <= i < rewrites@.len() ==> #[trigger] r.mappings()[i] == (
                    rewrites@[i].0.keycode_spec(),
                    rewrites@[i].1,
                ),
            r.turns_off() == auto_off,
    {
        let mut converted: Vec<(u32, LayerAction<'a>)> = Vec::new();
        let mut i: usize = 0;
        while i < rewrites.len()
            invariant
                i <= rewrites@.len(),
                converted@.len() == i,
                forall|j: int|
                    0 <= j < i ==> #[trigger] converted@[j] == (
                        rewrites@[j].0.keycode_spec(),
                        rewrites@[j].1,
                    ),
            decreases rewrites@.len() - i,
        {
            let trigger = rewrites[i].0.to_u32();
            let action = rewrites[i].1;
            converted.push((trigger, action));
            i += 1;
        }
        Layer { rewrites: converted, auto_off }
    }
}

/// The key rewritten by a layer, unless a layer did so already.
fn rewrite_key(kc: Key, to: u32) -> (r: Key)
    ensures
        r == rewritten(kc, to),
{
    let mut kc = kc;
    if (kc.flag & 2) == 0 {
        kc.keycode = to;
        kc.flag = kc.flag | 2;
    }
    kc
}

impl<'a> ProcessKeys for Layer<'a> {
    open spec fn processes(&self, events: Seq<(Event, EventStatus)>, out: OutView) -> (
        Seq<(Event, EventStatus)>,
        OutView,
        HandlerResult,
    ) {
        let cfg = LayerCfg {
            rewrites: self.mappings(),
            auto_off: self.turns_off(),
            shift: out.flags[Modifier::Shift.bit()],
            triggers: out.triggers,
            mode: out.mode,
        };
        (
            events.map_values(|e: (Event, EventStatus)| layer_step(cfg, e).0),
            OutView { reports: out.reports + layer_reports(cfg, events), ..out },
            if exists|i: int| 0 <= i < events.len() && #[trigger] layer_step(cfg, events[i]).2 {
                HandlerResult::Disable
            } else {
                HandlerResult::NoOp
            },
        )
    }

    closed spec fn behaviour(&self, calls: Seq<Call>) -> Seq<CallResult>
        decreases calls.len(),
    {
        if calls.len() == 0 {
            Seq::empty()
        } else {
            seq![self.processes(calls[0].0, calls[0].1)] + self.behaviour(calls.drop_first())
        }
    }


    fn process_keys(
        &mut self,
        events: &mut Vec<(Event, EventStatus)>,
        output: &mut KeyOutCatcher,
    ) -> (r: HandlerResult)
        ensures
            ({
                let cfg = LayerCfg {
                    rewrites: old(self).mappings(),
                    auto_off: old(self).turns_off(),
                    shift: old(output).kb().spec_modifier(Modifier::Shift),
                    triggers: old(output).kb().oneshot_triggers(),
                    mode: old(output).kb().mode(),
                };
                &&& final(events)@.len() == old(events)@.len()
                &&& forall|i: int|
                    0 <= i < old(events)@.len() ==> #[trigger] final(events)@[i] == layer_step(
                        cfg,
                        old(events)@[i],
                    ).0
                &&& final(output).report_log() == old(output).report_log() + layer_reports(
                    cfg,
                    old(events)@,
                )
                &&& (r == HandlerResult::Disable <==> exists|i: int|
                    0 <= i < old(events)@.len() && #[trigger] layer_step(cfg, old(events)@[i]).2)
                &&& r == HandlerResult::Disable || r == HandlerResult::NoOp
            }),
            *final(self) == *old(self),
            final(output).registered() == old(output).registered(),
            final(output).debug_log() == old(output).debug_log(),
            final(output).kb() == old(output).kb(),
    {
        let shift = output.ro_state().modifier(Modifier::Shift);
        let ghost cfg = LayerCfg {
            rewrites: self.rewrites@,
            auto_off: self.auto_off,
            shift: shift,
            triggers: output.kb().oneshot_triggers(),
            mode: output.kb().mode(),
        };
        let mut result = HandlerResult::NoOp;
        let n = events.len();
        let mut i: usize = 0;
        while i < n
            invariant
                n == events@.len(),
                n == old(events)@.len(),
                i <= n,
                *self == *old(self),
                cfg == (LayerCfg {
                    rewrites: self.rewrites@,
                    auto_off: self.auto_off,
                    shift: shift,
                    triggers: old(output).kb().oneshot_triggers(),
                    mode: old(output).kb().mode(),
                }),
                shift == old(output).kb().spec_modifier(Modifier::Shift),
                forall|j: int|
                    0 <= j < i ==> #[trigger] events@[j] == layer_step(cfg, old(events)@[j]).0,
                forall|j: int| i <= j < n ==> #[trigger] events@[j] == old(events)@[j],
                output.report_log() == old(output).report_log() + layer_reports(
                    cfg,
                    old(events)@.subrange(0, i as int),
                ),
                (result == HandlerResult::Disable <==> exists|j: int|
                    0 <= j < i && #[trigger] layer_step(cfg, old(events)@[j]).2),
                result == HandlerResult::Disable || result == HandlerResult::NoOp,
                output.registered() == old(output).registered(),
                output.debug_log() == old(output).debug_log(),
                output.kb() == old(output).kb(),
            decreases n - i,
        {
            let (event, status) = events[i];
            let ghost log0 = output.report_log();
            let ghost result0 = result;
            if status == EventStatus::Unhandled {
                match event {
                    Event::KeyRelease(kc) => {
                        let mut kc = kc;
                        let mut new_status = status;
                        let mut rewrite_happened = false;
                        match find_first(self.rewrites.as_slice(), kc.keycode) {
                            Some(k) => {
                                match self.rewrites[k].1 {
                                    LayerAction::RewriteTo(to_keycode) => {
                                        rewrite_happened = (kc.flag & 2) == 0;
                                        kc = rewrite_key(kc, to_keycode);
                                    },
                                    LayerAction::RewriteToShifted(to_keycode, to_shifted_keycode) => {
                                        rewrite_happened = (kc.flag & 2) == 0;
                                        if shift {
                                            kc = rewrite_key(kc, to_shifted_keycode);
                                        } else {
                                            kc = rewrite_key(kc, to_keycode);
                                        }
                                    },
                                    LayerAction::SendString(s) => {
                                        output.send_string(s);
                                        new_status = EventStatus::Handled;
                                        rewrite_happened = true;
                                    },
                                    LayerAction::SendStringShifted(s1, s2) => {
                                        if shift {
                                            output.send_string(s2);
                                        } else {
                                            output.send_string(s1);
                                        }
                                        new_status = EventStatus::Handled;
                                        rewrite_happened = true;
                                    },
                                }
                            },
                            None => {},
                        }
                        let turn_off = match self.auto_off {
                            AutoOff::No => false,
                            AutoOff::AfterAll => true,
                            AutoOff::AfterMatch => rewrite_happened,
                            AutoOff::AfterNonModifier => {
                                !output.ro_state().is_oneshot_trigger(kc.keycode) && !(
                                KeyCode::LCtrl.to_u32() <= kc.keycode && kc.keycode
                                    <= KeyCode::RGui.to_u32())
                            },
                        };
                        if turn_off {
                            result = HandlerResult::Disable;
                        }
                        events.set(i, (Event::KeyRelease(kc), new_status));
                        assert(layer_step(cfg, old(events)@[i as int]).2 == turn_off);
                    },
                    Event::KeyPress(kc) => {
                        match find_first(self.rewrites.as_slice(), kc.keycode) {
                            Some(k) => {
                                match self.rewrites[k].1 {
                                    LayerAction::RewriteTo(to_keycode) => {
                                        events.set(i, (Event::KeyPress(rewrite_key(kc, to_keycode)), status));
                                    },
                                    LayerAction::RewriteToShifted(to_keycode, to_shifted_keycode) => {
                                        if shift {
                                            events.set(i, (Event::KeyPress(rewrite_key(kc, to_shifted_keycode)), status));
                                        } else {
                                            events.set(i, (Event::KeyPress(rewrite_key(kc, to_keycode)), status));
                                        }
                                    },
                                    LayerAction::SendString(_) | LayerAction::SendStringShifted(_, _) => {
                                        events.set(i, (event, EventStatus::Handled));
                                    },
                                }
                            },
                            None => {},
                        }
                    },
                    Event::TimeOut(_) => {},
                }
            }
            proof {
                let prefix = old(events)@.subrange(0, i as int);
                assert(old(events)@.subrange(0, i + 1).drop_last() =~= prefix);
                assert(old(events)@.subrange(0, i + 1).last() == old(events)@[i as int]);
                assert(output.report_log() =~= log0 + layer_step(cfg, old(events)@[i as int]).1);
                if layer_step(cfg, old(events)@[i as int]).2 {
                    assert(result == HandlerResult::Disable);
                } else {
                    assert(result == result0);
                }
            }
            i += 1;
        }
        assert(old(events)@.subrange(0, n as int) =~= old(events)@);
        assert(events@ =~= old(events)@.map_values(|e: (Event, EventStatus)| layer_step(cfg, e).0));
        proof {
            assert forall|calls: Seq<Call>|
                calls.len() > 0 implies #[trigger] self.behaviour(calls)[0] == self.processes(
                calls[0].0,
                calls[0].1,
            ) by {
            lemma_prepend_call(
                calls[0],
                calls.drop_first(),
                self.processes(calls[0].0, calls[0].1),
                self.behaviour(calls.drop_first()),
            );
            }
            assert forall|calls: Seq<Call>|
                calls.len() > 0 implies #[trigger] old(self).behaviour(calls)[0] == old(self).processes(
                calls[0].0,
                calls[0].1,
            ) by {
            lemma_prepend_call(
                calls[0],
                calls.drop_first(),
                old(self).processes(calls[0].0, calls[0].1),
                old(self).behaviour(calls.drop_first()),
            );
            }
            let x = (old(events)@, old(output)@);
            assert(*self == *old(self));
            assert forall|calls: Seq<Call>|
                #[trigger] self.behaviour(calls) == old(self).behaviour(seq![x] + calls).drop_first() by {
                lemma_prepend_call(x, calls, old(self).processes(x.0, x.1), self.behaviour(calls));
            }
        }
        result
    }

    /// Layers start disabled.
    open spec fn starts_enabled(&self) -> bool {
        false
    }

    fn default_enabled(&self) -> (r: bool)
        ensures
            r == false,
    {
        false
    }

    fn oneshot_triggers(&self) -> (r: Vec<u32>) {
        Vec::new()
    }
}


/// Law: when a layer turns itself off. With AutoOff::No it never does;
/// with AfterAll on every key release; with AfterMatch on the release of a
/// key it acts upon; with AfterNonModifier on the release of an unmapped
/// key that is neither a modifier nor a one shot trigger. Key presses,
/// timeouts and events other handlers took care of never turn it off.
pub proof fn law_layer_auto_off<'a>(cfg: LayerCfg<'a>, entry: (Event, EventStatus), kc: Key)
    ensures
        cfg.auto_off == AutoOff::No ==> !layer_step(cfg, entry).2,
        entry.1 != EventStatus::Unhandled ==> !layer_step(cfg, entry).2,
        !(entry.0 is KeyRelease) ==> !layer_step(cfg, entry).2,
        (entry == (Event::KeyRelease(kc), EventStatus::Unhandled) && cfg.auto_off == AutoOff::AfterAll)
            ==> layer_step(cfg, entry).2,
        (entry == (Event::KeyRelease(kc), EventStatus::Unhandled) && cfg.auto_off
            == AutoOff::AfterMatch) ==> (layer_step(cfg, entry).2 <==> match first_action(
            cfg.rewrites,
            kc.keycode,
        ) {
            Some(LayerAction::RewriteTo(_)) => kc.flag & 2 == 0,
            Some(LayerAction::RewriteToShifted(_, _)) => kc.flag & 2 == 0,
            Some(_) => true,
            None => false,
        }),
        (entry == (Event::KeyRelease(kc), EventStatus::Unhandled) && cfg.auto_off
            == AutoOff::AfterNonModifier && first_action(cfg.rewrites, kc.keycode) is None) ==> (
        layer_step(cfg, entry).2 <==> (!cfg.triggers.contains(kc.keycode) && !is_modifier_code(
            kc.keycode,
        ))),
{
}

/// The key of a key event (a timeout has none).
pub open spec fn event_key(e: Event) -> Key {
    match e {
        Event::KeyPress(kc) => kc,
        Event::KeyRelease(kc) => kc,
        Event::TimeOut(_) => arbitrary(),
    }
}

/// Law: what a layer may change of an event. Events that are not
/// Unhandled, timeouts, and keys without a mapping stay as they are. A key
/// event stays a press or a release, keeps its original key code, its
/// milliseconds and its running number; its flag gains at most bit 1 (the
/// rewrite mark), and a key a layer rewrote already keeps its key code and
/// flag. Only the events of a key mapped to a string become Handled (the
/// layer sends the string on the release); all others keep their status.
pub proof fn law_layer_frame<'a>(cfg: LayerCfg<'a>, entry: (Event, EventStatus))
    ensures
        ({
            let after = layer_step(cfg, entry).0;
            &&& (entry.1 != EventStatus::Unhandled || entry.0 is TimeOut) ==> after == entry
            &&& entry.0 is KeyPress ==> after.0 is KeyPress
            &&& entry.0 is KeyRelease ==> after.0 is KeyRelease
            &&& after.1 != entry.1 ==> after.1 == EventStatus::Handled && (first_action(
                cfg.rewrites,
                event_key(entry.0).keycode,
            ) matches Some(a) && (a is SendString || a is SendStringShifted))
            &&& !(entry.0 is TimeOut) ==> {
                let k = event_key(entry.0);
                let k2 = event_key(after.0);
                &&& k2.original_keycode == k.original_keycode
                &&& k2.ms_since_last == k.ms_since_last
                &&& k2.running_number == k.running_number
                &&& (k2.flag == k.flag || k2.flag == (k.flag | 2))
                &&& k.flag & 2 != 0 ==> k2.keycode == k.keycode && k2.flag == k.flag
                &&& first_action(cfg.rewrites, k.keycode) is None ==> after == entry
            }
        }),
{
    if entry.1 == EventStatus::Unhandled {
        match entry.0 {
            Event::KeyPress(kc) => {
                match first_action(cfg.rewrites, kc.keycode) {
                    Some(LayerAction::RewriteTo(to)) => {},
                    Some(LayerAction::RewriteToShifted(to, to_shifted)) => {},
                    Some(LayerAction::SendString(st)) => {},
                    Some(LayerAction::SendStringShifted(s1, s2)) => {},
                    None => {},
                }
            },
            Event::KeyRelease(kc) => {
                match first_action(cfg.rewrites, kc.keycode) {
                    Some(LayerAction::RewriteTo(to)) => {},
                    Some(LayerAction::RewriteToShifted(to, to_shifted)) => {},
                    Some(LayerAction::SendString(st)) => {},
                    Some(LayerAction::SendStringShifted(s1, s2)) => {},
                    None => {},
                }
            },
            Event::TimeOut(_) => {},
        }
    }
}

} // verus!
