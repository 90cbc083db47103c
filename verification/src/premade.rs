//! Premade handlers and actions for various occasions.
use vstd::prelude::*;
use crate::handlers::{Call, CallResult, lemma_prepend_call};
use crate::handlers::{
    Action, HandlerResult, OnOff, OneShot, PressReleaseMacro, ProcessKeys, RewriteLayer, SpaceCadet,
    first_action,
};
use crate::handlers::oneshot::{OneShotCfg, OneShotStatus};
use crate::handlers::spacecadet::SpaceCadetState;
use crate::key_codes::{AcceptsKeycode, KeyCode, keycode_value};
use crate::key_stream::{Event, EventStatus};
use crate::output::{KeyOutCatcher, OutView, usb_bytes, hex_char_keycode, hex_char_keycode_dvorak, is_hex_char};
use crate::state::{HandlerID, KeyboardState, Modifier};

verus! {

/// The state after `id`'s bit is set to `value`; a state without such a
/// bit stays as it is.
pub open spec fn with_bit(flags: Seq<bool>, id: HandlerID, value: bool) -> Seq<bool> {
    if (id as int) < flags.len() {
        flags.update(id as int, value)
    } else {
        flags
    }
}

/// The state after `id`'s bit is flipped; a state without such a bit
/// stays as it is.
pub open spec fn with_bit_toggled(flags: Seq<bool>, id: HandlerID) -> Seq<bool> {
    if (id as int) < flags.len() {
        flags.update(id as int, !flags[id as int])
    } else {
        flags
    }
}

/// Whether the output is unchanged except for the state bits, which become
/// `flags` (no report and no debug message either).
pub open spec fn only_flags_changed(before: KeyOutCatcher, after: KeyOutCatcher, flags: Seq<bool>) -> bool {
    &&& after.kb().flags() == flags
    &&& after.kb().mode() == before.kb().mode()
    &&& after.kb().oneshot_triggers() == before.kb().oneshot_triggers()
    &&& after.report_log() == before.report_log()
    &&& after.registered() == before.registered()
    &&& after.debug_log() == before.debug_log()
}

/// Sets the bit of a handler (or modifier), if the state has it.
fn set_bit(output: &mut KeyOutCatcher, id: HandlerID, value: bool)
    ensures
        only_flags_changed(*old(output), *final(output), with_bit(old(output).kb().flags(), id, value)),
{
    let len = output.ro_state().len();
    if id < len {
        output.state().set_handler(id, value);
    }
}

/// Toggle a handler on activate, do nothing on deactivate. Probably only
/// useful with PressReleaseMacro; used by toggle_handler().
pub struct ActionToggleHandler {
    pub id: HandlerID,
}

impl OnOff for ActionToggleHandler {
    open spec fn activate_spec(self, out: OutView) -> (Self, OutView) {
        (self, OutView { flags: with_bit_toggled(out.flags, self.id), ..out })
    }

    open spec fn deactivate_spec(self, out: OutView) -> (Self, OutView) {
        (self, out)
    }

    fn on_activate(&mut self, output: &mut KeyOutCatcher)
        ensures
            only_flags_changed(
                *old(output),
                *final(output),
                with_bit_toggled(old(output).kb().flags(), old(self).id),
            ),
    {
        let len = output.ro_state().len();
        if self.id < len {
            output.state().toggle_handler(self.id);
        }
    }

    fn on_deactivate(&mut self, output: &mut KeyOutCatcher)
        ensures
            *final(output) == *old(output),
    {
    }
}

impl Action for ActionToggleHandler {
    open spec fn trigger_spec(self, out: OutView) -> (Self, OutView) {
        (self, OutView { flags: with_bit_toggled(out.flags, self.id), ..out })
    }

    fn on_trigger(&mut self, output: &mut KeyOutCatcher)
        ensures
            only_flags_changed(
                *old(output),
                *final(output),
                with_bit_toggled(old(output).kb().flags(), old(self).id),
            ),
    {
        let len = output.ro_state().len();
        if self.id < len {
            output.state().toggle_handler(self.id);
        }
    }
}

/// Toggles a handler on and off when a key is pressed.
pub fn toggle_handler<T: AcceptsKeycode>(trigger: T, id: HandlerID) -> (r: Box<
    PressReleaseMacro<ActionToggleHandler>,
>)
    ensures
        (*r).trigger() == trigger.keycode_spec(),
        (*r).callbacks() == (ActionToggleHandler { id: id }),
{
    Box::new(PressReleaseMacro::new(trigger.to_u32(), ActionToggleHandler { id }))
}

/// The qwerty to dvorak mapping.
pub const DVORAK_MAP: [(u32, u32); 35] = [
    (0x100014, 0x100034),  // Q -> Quote
    (0x10001a, 0x100036),  // W -> Comma
    (0x100008, 0x100037),  // E -> Dot
    (0x100015, 0x100013),  // R -> P
    (0x100017, 0x10001c),  // T -> Y
    (0x10001c, 0x100009),  // Y -> F
    (0x100018, 0x10000a),  // U -> G
    (0x10000c, 0x100006),  // I -> C
    (0x100012, 0x100015),  // O -> R
    (0x100013, 0x10000f),  // P -> L
    (0x100016, 0x100012),  // S -> O
    (0x100007, 0x100008),  // D -> E
    (0x100009, 0x100018),  // F -> U
    (0x10000a, 0x10000c),  // G -> I
    (0x10000b, 0x100007),  // H -> D
    (0x10000d, 0x10000b),  // J -> H
    (0x10000e, 0x100017),  // K -> T
    (0x10000f, 0x100011),  // L -> N
    (0x100033, 0x100016),  // SColon -> S
    (0x100034, 0x10002d),  // Quote -> Minus
    (0x10001d, 0x100033),  // Z -> SColon
    (0x10001b, 0x100014),  // X -> Q
    (0x100006, 0x10000d),  // C -> J
    (0x100019, 0x10000e),  // V -> K
    (0x100005, 0x10001b),  // B -> X
    (0x100011, 0x100005),  // N -> B
    (0x100010, 0x100010),  // M -> M
    (0x100036, 0x10001a),  // Comma -> W
    (0x100037, 0x100019),  // Dot -> V
    (0x100038, 0x10001d),  // Slash -> Z
    (0x10002e, 0x100030),  // Equal -> RBracket
    (0x100034, 0x10002d),  // Quote -> Minus
    (0x100030, 0x10002e),  // RBracket -> Equal
    (0x10002d, 0x10002f),  // Minus -> LBracket
    (0x10002f, 0x100038),  // LBracket -> Slash
];

/// A layer that maps qwerty to dvorak.
/// Don't forget to enable it, layers are off by default.
pub fn dvorak() -> (r: Box<RewriteLayer<'static>>)
    ensures
        (*r).mappings() == DVORAK_MAP@,
{
    Box::new(RewriteLayer::new(&DVORAK_MAP))
}

/// A key code after a map: the target of its first mapping, or the code
/// itself when no mapping applies (what a rewrite layer does to a key).
pub open spec fn remap(map: Seq<(u32, u32)>, code: u32) -> u32 {
    match first_action(map, code) {
        Some(to) => to,
        None => code,
    }
}

/// Law: the keys that type the hex digits on a dvorak host
/// (`hex_digit_to_keycode_dvorak`) are the plain hex digit keys
/// (`hex_digit_to_keycode`) as the map of `dvorak()` remaps them: the
/// dvorak layer turns the dvorak key of a hex digit into the qwerty key of
/// that digit. The digit keys and A are not mapped; N, I, H, D and Y are
/// mapped to B, C, D, E and F.
#[verifier::spinoff_prover]
#[verifier::rlimit(50)]
pub proof fn law_dvorak_hex_keys(c: char)
    requires
        is_hex_char(c),
    ensures
        remap(DVORAK_MAP@, keycode_value(hex_char_keycode_dvorak(c))) == keycode_value(
            hex_char_keycode(c),
        ),
        first_action(DVORAK_MAP@, keycode_value(hex_char_keycode_dvorak(c))) is None
            <==> hex_char_keycode_dvorak(c) == hex_char_keycode(c),
{
    reveal_with_fuel(first_action, 36);
}

/// Enable/disable a handler (layer) on activation/deactivation,
/// for use with PressRelease, StickyKeys, OneShot, SpaceCadet.
///
/// Can also be used with Modifier::* (pass in the modifier's bit as HandlerID).
pub struct ActionHandler {
    id: HandlerID,
}

impl ActionHandler {
    /// The handler (or modifier bit) this action switches.
    pub closed spec fn target(self) -> HandlerID {
        self.id
    }

    pub fn new(id: HandlerID) -> (r: ActionHandler)
        ensures
            r.target() == id,
    {
        ActionHandler { id }
    }
}

impl OnOff for ActionHandler {
    open spec fn activate_spec(self, out: OutView) -> (Self, OutView) {
        (self, OutView { flags: with_bit(out.flags, self.target(), true), ..out })
    }

    open spec fn deactivate_spec(self, out: OutView) -> (Self, OutView) {
        (self, OutView { flags: with_bit(out.flags, self.target(), false), ..out })
    }

    fn on_activate(&mut self, output: &mut KeyOutCatcher)
        ensures
            only_flags_changed(
                *old(output),
                *final(output),
                with_bit(old(output).kb().flags(), old(self).target(), true),
            ),
    {
        set_bit(output, self.id, true);
    }

    fn on_deactivate(&mut self, output: &mut KeyOutCatcher)
        ensures
            only_flags_changed(
                *old(output),
                *final(output),
                with_bit(old(output).kb().flags(), old(self).target(), false),
            ),
    {
        set_bit(output, self.id, false);
    }
}

/// Disable/enable a handler (layer) on activation/deactivation: the
/// inverse of ActionHandler, it enables when the button is released.
pub struct InverseActionHandler {
    id: HandlerID,
}

impl InverseActionHandler {
    /// The handler (or modifier bit) this action switches.
    pub closed spec fn target(self) -> HandlerID {
        self.id
    }

    pub fn new(id: HandlerID) -> (r: InverseActionHandler)
        ensures
            r.target() == id,
    {
        InverseActionHandler { id }
    }
}

impl OnOff for InverseActionHandler {
    /// Writes the debug message "off", then disables the handler.
    open spec fn activate_spec(self, out: OutView) -> (Self, OutView) {
        (
            self,
            OutView {
                flags: with_bit(out.flags, self.target(), false),
                debug: out.debug.push("off"@),
                ..out
            },
        )
    }

    /// Writes the debug message "on", then enables the handler.
    open spec fn deactivate_spec(self, out: OutView) -> (Self, OutView) {
        (
            self,
            OutView {
                flags: with_bit(out.flags, self.target(), true),
                debug: out.debug.push("on"@),
                ..out
            },
        )
    }

    fn on_activate(&mut self, output: &mut KeyOutCatcher) {
        output.debug("off");
        set_bit(output, self.id, false);
    }

    fn on_deactivate(&mut self, output: &mut KeyOutCatcher) {
        output.debug("on");
        set_bit(output, self.id, true);
    }
}

/// A one shot on two triggers that sets the state bit `id` while active.
fn one_shot_bit<T1: AcceptsKeycode, T2: AcceptsKeycode>(
    trigger1: T1,
    trigger2: T2,
    id: HandlerID,
    held_timeout: u16,
    released_timeout: u16,
) -> (r: Box<OneShot<ActionHandler, ActionNone, ActionNone>>)
    ensures
        (*r).cfg(Seq::empty()) == (OneShotCfg {
            trigger1: trigger1.keycode_spec(),
            trigger2: trigger2.keycode_spec(),
            held_timeout: held_timeout,
            released_timeout: released_timeout,
            triggers: Seq::empty(),
        }),
        (*r).current() == OneShotStatus::Off,
        (*r).callbacks().target() == id,
        (*r).double_taps() == (ActionNone {}, ActionNone {}),
{
    Box::new(
        OneShot::new(
            trigger1,
            trigger2,
            ActionHandler::new(id),
            ActionNone {},
            ActionNone {},
            held_timeout,
            released_timeout,
        ),
    )
}

/// The one shot configuration of a modifier's left and right keys.
pub open spec fn modifier_oneshot_cfg(left: KeyCode, right: KeyCode, held_timeout: u16, released_timeout: u16) -> OneShotCfg {
    OneShotCfg {
        trigger1: keycode_value(left),
        trigger2: keycode_value(right),
        held_timeout: held_timeout,
        released_timeout: released_timeout,
        triggers: Seq::empty(),
    }
}

/// Make the shift keys behave as a OneShot (hint: use before space cadet).
pub fn one_shot_shift(held_timeout: u16, released_timeout: u16) -> (r: Box<
    OneShot<ActionHandler, ActionNone, ActionNone>,
>)
    ensures
        (*r).cfg(Seq::empty()) == modifier_oneshot_cfg(
            KeyCode::LShift,
            KeyCode::RShift,
            held_timeout,
            released_timeout,
        ),
        (*r).current() == OneShotStatus::Off,
        (*r).callbacks().target() == Modifier::Shift.bit(),
        (*r).double_taps() == (ActionNone {}, ActionNone {}),
{
    one_shot_bit(KeyCode::LShift, KeyCode::RShift, Modifier::Shift.to_bit(), held_timeout, released_timeout)
}

/// Make the ctrl keys behave as a OneShot (hint: use before space cadet).
pub fn one_shot_ctrl(held_timeout: u16, released_timeout: u16) -> (r: Box<
    OneShot<ActionHandler, ActionNone, ActionNone>,
>)
    ensures
        (*r).cfg(Seq::empty()) == modifier_oneshot_cfg(
            KeyCode::LCtrl,
            KeyCode::RCtrl,
            held_timeout,
            released_timeout,
        ),
        (*r).current() == OneShotStatus::Off,
        (*r).callbacks().target() == Modifier::Ctrl.bit(),
        (*r).double_taps() == (ActionNone {}, ActionNone {}),
{
    one_shot_bit(KeyCode::LCtrl, KeyCode::RCtrl, Modifier::Ctrl.to_bit(), held_timeout, released_timeout)
}

/// Make the alt keys behave as a OneShot (hint: use before space cadet).
pub fn one_shot_alt(held_timeout: u16, released_timeout: u16) -> (r: Box<
    OneShot<ActionHandler, ActionNone, ActionNone>,
>)
    ensures
        (*r).cfg(Seq::empty()) == modifier_oneshot_cfg(
            KeyCode::LAlt,
            KeyCode::RAlt,
            held_timeout,
            released_timeout,
        ),
        (*r).current() == OneShotStatus::Off,
        (*r).callbacks().target() == Modifier::Alt.bit(),
        (*r).double_taps() == (ActionNone {}, ActionNone {}),
{
    one_shot_bit(KeyCode::LAlt, KeyCode::RAlt, Modifier::Alt.to_bit(), held_timeout, released_timeout)
}

/// Make the gui/windows keys behave as a OneShot (hint: use before space cadet).
pub fn one_shot_gui(held_timeout: u16, released_timeout: u16) -> (r: Box<
    OneShot<ActionHandler, ActionNone, ActionNone>,
>)
    ensures
        (*r).cfg(Seq::empty()) == modifier_oneshot_cfg(
            KeyCode::LGui,
            KeyCode::RGui,
            held_timeout,
            released_timeout,
        ),
        (*r).current() == OneShotStatus::Off,
        (*r).callbacks().target() == Modifier::Gui.bit(),
        (*r).double_taps() == (ActionNone {}, ActionNone {}),
{
    one_shot_bit(KeyCode::LGui, KeyCode::RGui, Modifier::Gui.to_bit(), held_timeout, released_timeout)
}

/// Toggle a handler (layer) based on OneShot behaviour.
pub fn one_shot_handler<T: AcceptsKeycode>(
    trigger: T,
    id: HandlerID,
    held_timeout: u16,
    released_timeout: u16,
) -> (r: Box<OneShot<ActionHandler, ActionNone, ActionNone>>)
    ensures
        (*r).cfg(Seq::empty()) == (OneShotCfg {
            trigger1: trigger.keycode_spec(),
            trigger2: keycode_value(KeyCode::No),
            held_timeout: held_timeout,
            released_timeout: released_timeout,
            triggers: Seq::empty(),
        }),
        (*r).current() == OneShotStatus::Off,
        (*r).callbacks().target() == id,
        (*r).double_taps() == (ActionNone {}, ActionNone {}),
{
    one_shot_bit(trigger, KeyCode::No, id, held_timeout, released_timeout)
}

/// A space cadet (pass through on tap, on/off on pressed+other keys) that
/// turns a handler on/off.
///
/// This needs to be before the handler it toggles in the handler order, so
/// use `keyboard.future_handler_id(2)` for its id.
pub fn space_cadet_handler<T: AcceptsKeycode>(trigger: T, action: KeyCode, id: HandlerID) -> (r: Box<
    SpaceCadet<KeyCode, ActionHandler>,
>)
    ensures
        (*r).trigger_code() == trigger.keycode_spec(),
        (*r).current() == SpaceCadetState::Base,
        (*r).min_depress() == 100,
        (*r).callbacks().0 == action,
        (*r).callbacks().1.target() == id,
{
    Box::new(SpaceCadet::new(trigger, action, ActionHandler::new(id)))
}

/// What CopyPaste does to one event, and the reports it sends.
pub open spec fn copy_paste_step(entry: (Event, EventStatus)) -> ((Event, EventStatus), Seq<Seq<u8>>) {
    if entry.1 != EventStatus::Unhandled {
        (entry, Seq::empty())
    } else {
        match entry.0 {
            Event::KeyPress(kc) => if kc.keycode == keycode_value(KeyCode::Copy) {
                (
                    (entry.0, EventStatus::Handled),
                    seq![usb_bytes(seq![KeyCode::LCtrl, KeyCode::Insert]), Seq::<u8>::empty()],
                )
            } else if kc.keycode == keycode_value(KeyCode::Paste) {
                (
                    (entry.0, EventStatus::Handled),
                    seq![usb_bytes(seq![KeyCode::LShift, KeyCode::Insert]), Seq::<u8>::empty()],
                )
            } else if kc.keycode == keycode_value(KeyCode::Cut) {
                (
                    (entry.0, EventStatus::Handled),
                    seq![usb_bytes(seq![KeyCode::LShift, KeyCode::Delete]), Seq::<u8>::empty()],
                )
            } else {
                (entry, Seq::empty())
            },
            Event::KeyRelease(kc) => if kc.keycode == keycode_value(KeyCode::Copy) || kc.keycode
                == keycode_value(KeyCode::Paste) || kc.keycode == keycode_value(KeyCode::Cut) {
                ((entry.0, EventStatus::Handled), Seq::empty())
            } else {
                (entry, Seq::empty())
            },
            Event::TimeOut(_) => (entry, Seq::empty()),
        }
    }
}

/// The reports CopyPaste sends for a list of events, oldest first.
pub open spec fn copy_paste_reports(events: Seq<(Event, EventStatus)>) -> Seq<Seq<u8>>
    decreases events.len(),
{
    if events.len() == 0 {
        Seq::empty()
    } else {
        copy_paste_reports(events.drop_last()) + copy_paste_step(events.last()).1
    }
}

/// Handler for turning Copy/Paste/Cut key codes into 'universal'
/// Ctrl-Insert, Shift-Insert, Shift-Delete key strokes, for dedicated
/// copy paste keys.
pub struct CopyPaste {}

impl ProcessKeys for CopyPaste {
    open spec fn processes(&self, events: Seq<(Event, EventStatus)>, out: OutView) -> (
        Seq<(Event, EventStatus)>,
        OutView,
        HandlerResult,
    ) {
        (
            events.map_values(|e: (Event, EventStatus)| copy_paste_step(e).0),
            OutView { reports: out.reports + copy_paste_reports(events), ..out },
            HandlerResult::NoOp,
        )
    }

    closed spec fn behaviour(&self, calls: Seq<Call>) -> Seq<CallResult>
        decreases calls.len(),
    {
        if calls.len() == 0 {
            Seq::empty()
        } else {
            seq![self.processes(calls[0].0, calls[0].1)] + self.behaviour(calls.drop_first())
        }
    }


    fn process_keys(
        &mut self,
        events: &mut Vec<(Event, EventStatus)>,
        output: &mut KeyOutCatcher,
    ) -> (r: HandlerResult)
        ensures
            r == HandlerResult::NoOp,
            final(events)@.len() == old(events)@.len(),
            forall|i: int|
                0 <= i < old(events)@.len() ==> #[trigger] final(events)@[i] == copy_paste_step(
                    old(events)@[i],
                ).0,
            final(output).report_log() == old(output).report_log() + copy_paste_reports(old(events)@),
            final(output).debug_log() == old(output).debug_log(),
            final(output).registered() == old(output).registered(),
            final(output).kb() == old(output).kb(),
    {
        let n = events.len();
        let mut i: usize = 0;
        while i < n
            invariant
                n == events@.len(),
                n == old(events)@.len(),
                i <= n,
                forall|j: int| 0 <= j < i ==> #[trigger] events@[j] == copy_paste_step(old(events)@[j]).0,
                forall|j: int| i <= j < n ==> #[trigger] events@[j] == old(events)@[j],
                output.report_log() == old(output).report_log() + copy_paste_reports(
                    old(events)@.subrange(0, i as int),
                ),
                output.registered() == old(output).registered(),
                output.debug_log() == old(output).debug_log(),
                output.kb() == old(output).kb(),
            decreases n - i,
        {
            let (event, status) = events[i];
            let ghost log0 = output.report_log();
            if status == EventStatus::Unhandled {
                match event {
                    Event::KeyPress(kc) => {
                        if kc.keycode == KeyCode::Copy.to_u32() {
                            output.send_keys(&[KeyCode::LCtrl, KeyCode::Insert]);
                            output.send_empty();
                            events.set(i, (event, EventStatus::Handled));
                        } else if kc.keycode == KeyCode::Paste.to_u32() {
                            output.send_keys(&[KeyCode::LShift, KeyCode::Insert]);
                            output.send_empty();
                            events.set(i, (event, EventStatus::Handled));
                        } else if kc.keycode == KeyCode::Cut.to_u32() {
                            output.send_keys(&[KeyCode::LShift, KeyCode::Delete]);
                            output.send_empty();
                            events.set(i, (event, EventStatus::Handled));
                        }
                    },
                    Event::KeyRelease(kc) => {
                        if kc.keycode == KeyCode::Copy.to_u32() || kc.keycode
                            == KeyCode::Paste.to_u32() || kc.keycode == KeyCode::Cut.to_u32() {
                            events.set(i, (event, EventStatus::Handled));
                        }
                    },
                    _ => {},
                }
            }
            proof {
                assert(old(events)@.subrange(0, i + 1).drop_last() =~= old(events)@.subrange(0, i as int));
                assert(old(events)@.subrange(0, i + 1).last() == old(events)@[i as int]);
                assert(output.report_log() =~~= log0 + copy_paste_step(old(events)@[i as int]).1);
            }
            i += 1;
        }
        assert(old(events)@.subrange(0, n as int) =~= old(events)@);
        assert(events@ =~= old(events)@.map_values(|e: (Event, EventStatus)| copy_paste_step(e).0));
        proof {
            assert forall|calls: Seq<Call>|
                calls.len() > 0 implies #[trigger] self.behaviour(calls)[0] == self.processes(
                calls[0].0,
                calls[0].1,
            ) by {
            lemma_prepend_call(
                calls[0],
                calls.drop_first(),
                self.processes(calls[0].0, calls[0].1),
                self.behaviour(calls.drop_first()),
            );
            }
            assert forall|calls: Seq<Call>|
                calls.len() > 0 implies #[trigger] old(self).behaviour(calls)[0] == old(self).processes(
                calls[0].0,
                calls[0].1,
            ) by {
            lemma_prepend_call(
                calls[0],
                calls.drop_first(),
                old(self).processes(calls[0].0, calls[0].1),
                old(self).behaviour(calls.drop_first()),
            );
            }
            let x = (old(events)@, old(output)@);
            assert(*self == *old(self));
            assert forall|calls: Seq<Call>|
                #[trigger] self.behaviour(calls) == old(self).behaviour(seq![x] + calls).drop_first() by {
                lemma_prepend_call(x, calls, old(self).processes(x.0, x.1), self.behaviour(calls));
            }
        }
        HandlerResult::NoOp
    }

    fn default_enabled(&self) -> (r: bool) {
        true
    }

    fn oneshot_triggers(&self) -> (r: Vec<u32>) {
        Vec::new()
    }
}

/// An action that does nothing.
pub struct ActionNone {}

impl Action for ActionNone {
    open spec fn trigger_spec(self, out: OutView) -> (Self, OutView) {
        (self, out)
    }

    fn on_trigger(&mut self, output: &mut KeyOutCatcher)
        ensures
            *final(output) == *old(output),
    {
    }
}

/// The state bits after an abort: the requested handler bits are set, in
/// order (bits the state lacks are skipped), the modifiers are cleared,
/// and the abort signal is set.
pub open spec fn aborted_flags(flags: Seq<bool>, overwrite: Seq<(HandlerID, bool)>) -> Seq<bool>
    decreases overwrite.len(),
{
    if overwrite.len() == 0 {
        flags.update(0, false).update(1, false).update(2, false).update(3, false).update(4, true)
    } else {
        aborted_flags(
            with_bit(flags, overwrite[0].0, overwrite[0].1),
            overwrite.subrange(1, overwrite.len() as int),
        )
    }
}

/// Abort all event handling, throw away remaining events, unset all
/// modifiers and enable/disable handlers as requested by
/// `set_abort_status`.
pub struct ActionAbort {
    handler_overwrite: Vec<(HandlerID, bool)>,
}

impl ActionAbort {
    /// The requested handler settings, in order.
    pub closed spec fn overwrites(self) -> Seq<(HandlerID, bool)> {
        self.handler_overwrite@
    }

    pub fn new() -> (r: ActionAbort)
        ensures
            r.overwrites() == Seq::<(HandlerID, bool)>::empty(),
    {
        ActionAbort { handler_overwrite: Vec::new() }
    }

    /// Upon abort, handler `handler_id` is enabled or disabled.
    pub fn set_abort_status(&mut self, handler_id: HandlerID, enabled: bool)
        ensures
            final(self).overwrites() == old(self).overwrites().push((handler_id, enabled)),
    {
        self.handler_overwrite.push((handler_id, enabled));
    }

    fn do_abort(&self, output: &mut KeyOutCatcher)
        ensures
            only_flags_changed(
                *old(output),
                *final(output),
                aborted_flags(old(output).kb().flags(), self.overwrites()),
            ),
    {
        let n = self.handler_overwrite.len();
        assert(self.overwrites().subrange(0, n as int) =~= self.overwrites());
        let mut i: usize = 0;
        while i < n
            invariant
                n == self.handler_overwrite@.len(),
                i <= n,
                only_flags_changed(*old(output), *output, output.kb().flags()),
                aborted_flags(old(output).kb().flags(), self.overwrites()) == aborted_flags(
                    output.kb().flags(),
                    self.overwrites().subrange(i as int, n as int),
                ),
            decreases n - i,
        {
            let (handler_id, enabled) = self.handler_overwrite[i];
            let ghost sub = self.overwrites().subrange(i as int, n as int);
            assert(sub[0] == self.overwrites()[i as int]);
            assert(sub.subrange(1, sub.len() as int) =~= self.overwrites().subrange(i + 1, n as int));
            set_bit(output, handler_id, enabled);
            i += 1;
        }
        assert(self.overwrites().subrange(n as int, n as int).len() == 0);
        let _len = output.ro_state().len();
        let state = output.state();
        state.set_modifier(Modifier::Shift, false);
        state.set_modifier(Modifier::Ctrl, false);
        state.set_modifier(Modifier::Alt, false);
        state.set_modifier(Modifier::Gui, false);
        state.abort_and_clear_events();
    }
}

impl Action for ActionAbort {
    open spec fn trigger_spec(self, out: OutView) -> (Self, OutView) {
        (self, OutView { flags: aborted_flags(out.flags, self.overwrites()), ..out })
    }

    fn on_trigger(&mut self, output: &mut KeyOutCatcher)
        ensures
            only_flags_changed(
                *old(output),
                *final(output),
                aborted_flags(old(output).kb().flags(), old(self).overwrites()),
            ),
    {
        self.do_abort(output);
    }
}

impl OnOff for ActionAbort {
    open spec fn activate_spec(self, out: OutView) -> (Self, OutView) {
        (self, OutView { flags: aborted_flags(out.flags, self.overwrites()), ..out })
    }

    open spec fn deactivate_spec(self, out: OutView) -> (Self, OutView) {
        (self, out)
    }

    fn on_activate(&mut self, output: &mut KeyOutCatcher)
        ensures
            only_flags_changed(
                *old(output),
                *final(output),
                aborted_flags(old(output).kb().flags(), old(self).overwrites()),
            ),
    {
        self.do_abort(output);
    }

    fn on_deactivate(&mut self, output: &mut KeyOutCatcher)
        ensures
            *final(output) == *old(output),
    {
    }
}

} // verus!
