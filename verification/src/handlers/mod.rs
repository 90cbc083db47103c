//! Handlers turn the event stream into output. Each handler looks at the
//! events, marks them Handled (consumed) or Ignored (seen, but more data is
//! needed), and produces reports through the output.
use vstd::prelude::*;
use crate::key_codes::KeyCode;

pub mod autoshift;
pub mod debug_handlers;
pub mod layer;
pub mod leader;
pub mod longtap;
pub mod macros;
pub mod oneshot;
pub mod rewrite_layer;
pub mod sequence;
pub mod spacecadet;
pub mod tapdance;
pub mod unicodekeyboard;
pub mod usbkeyboard;

pub use autoshift::AutoShift;
pub use layer::{AutoOff, Layer, LayerAction};
pub use leader::{Leader, MatchResult};
pub use longtap::LongTap;
pub use macros::{PressMacro, PressReleaseMacro, StickyMacro};
pub use oneshot::{OneShot, OneShotStatus};
pub use rewrite_layer::RewriteLayer;
pub use sequence::Sequence;
pub use spacecadet::{SpaceCadet, SpaceCadetState};
pub use tapdance::{TapDance, TapDanceAction, TapDanceEnd};
pub use unicodekeyboard::UnicodeKeyboard;
pub use usbkeyboard::USBKeyboard;
use crate::key_stream::{Event, EventStatus};
use crate::output::{KeyOutCatcher, OutView, string_reports, usb_bytes, usb_byte};
use crate::handlers::usbkeyboard::register;

verus! {

/// Handlers are defined by this trait.
///
/// They process the events, set their status to either Handled or Ignored
/// (if more data is necessary), and send input to the computer via output.
pub trait ProcessKeys {
    /// What `process_keys` does: the events, the output and the result
    /// (left open for a handler that does not define it).
    open spec fn processes(&self, events: Seq<(Event, EventStatus)>, out: OutView) -> CallResult {
        arbitrary()
    }

    /// What successive `process_keys` calls do, each handed its events and
    /// output: the events, the output and the result of each call (left
    /// open for a handler that does not define it).
    open spec fn behaviour(&self, calls: Seq<Call>) -> Seq<CallResult> {
        arbitrary()
    }

    /// Handles the events: the events, the output and the result are those
    /// of `processes`; afterwards the handler does on any further calls what
    /// it would have done on them after this one. `behaviour` starts with
    /// what `processes` says, before the call and after it.
    fn process_keys(
        &mut self,
        events: &mut Vec<(Event, EventStatus)>,
        output: &mut KeyOutCatcher,
    ) -> (r: HandlerResult)
        ensures
            (final(events)@, final(output)@, r) == old(self).processes(old(events)@, old(output)@),
            forall|calls: Seq<Call>|
                #[trigger] final(self).behaviour(calls) == old(self).behaviour(
                    seq![(old(events)@, old(output)@)] + calls,
                ).drop_first(),
            forall|calls: Seq<Call>|
                calls.len() > 0 ==> #[trigger] old(self).behaviour(calls)[0] == old(self).processes(
                    calls[0].0,
                    calls[0].1,
                ),
            forall|calls: Seq<Call>|
                calls.len() > 0 ==> #[trigger] final(self).behaviour(calls)[0] == final(self).processes(
                    calls[0].0,
                    calls[0].1,
                ),
    ;

    /// Whether the handler starts enabled: true, unless the handler says
    /// otherwise (layers do).
    open spec fn starts_enabled(&self) -> bool {
        true
    }

    /// The key codes the handler makes one shot triggers: none, unless the
    /// handler says otherwise (one shots do).
    open spec fn trigger_codes(&self) -> Seq<u32> {
        Seq::empty()
    }

    /// Whether this handler is enabled after `Keyboard::add_handler`
    /// (true for most, false for layers).
    fn default_enabled(&self) -> (r: bool)
        ensures
            r == self.starts_enabled(),
    ;

    /// Key codes that trigger one shots: other one shots do not deactivate
    /// on them. `Keyboard::add_handler` records them in the keyboard state.
    fn oneshot_triggers(&self) -> (r: Vec<u32>)
        ensures
            r@ == self.trigger_codes(),
    ;
}

/// One call of a handler: the events and the output it is handed.
pub type Call = (Seq<(Event, EventStatus)>, OutView);

/// What one call of a handler gives: the events, the output and the result.
pub type CallResult = (Seq<(Event, EventStatus)>, OutView, HandlerResult);

/// Prepending a call (or a result) and dropping it again gives back the
/// rest, and the first is the one prepended.
pub proof fn lemma_prepend_call(x: Call, calls: Seq<Call>, p: CallResult, rest: Seq<CallResult>)
    ensures
        (seq![x] + calls).len() > 0,
        (seq![x] + calls)[0] == x,
        (seq![x] + calls).drop_first() == calls,
        (seq![p] + rest).drop_first() == rest,
        (seq![p] + rest)[0] == p,
{
    assert((seq![x] + calls).drop_first() =~= calls);
    assert((seq![p] + rest).drop_first() =~= rest);
}

/// What the keyboard should do with a handler after it ran.
#[derive(PartialEq, Eq, Structural, Debug, Clone, Copy)]
pub enum HandlerResult {
    NoOp,
    /// turn the handler off
    Disable,
}

/// A callback used when one single action is needed
/// (for example by a tap dance, a long tap or a sequence).
///
/// Notably implemented on &str, so you can just pass in a &str
/// to be sent to the host computer.
pub trait Action: Sized {
    /// What `on_trigger` does: the action afterwards, and the output
    /// afterwards (left unspecified by a type that does not define it).
    open spec fn trigger_spec(self, out: OutView) -> (Self, OutView) {
        arbitrary()
    }

    fn on_trigger(&mut self, output: &mut KeyOutCatcher)
        ensures
            (*final(self), final(output)@) == old(self).trigger_spec(old(output)@),
    ;
}

/// Send a string as an Action.
impl<'s> Action for &'s str {
    open spec fn trigger_spec(self, out: OutView) -> (Self, OutView) {
        (self, OutView { reports: out.reports + string_reports(out.mode, self@), ..out })
    }

    fn on_trigger(&mut self, output: &mut KeyOutCatcher) {
        output.send_string(*self);
    }
}

/// Register a key as an Action: it is sent with the next report of the
/// USBKeyboard, together with the current modifiers.
impl Action for KeyCode {
    open spec fn trigger_spec(self, out: OutView) -> (Self, OutView) {
        (self, OutView { registered: register(out.registered, usb_byte(self)), ..out })
    }

    fn on_trigger(&mut self, output: &mut KeyOutCatcher) {
        output.register_key(*self);
    }
}

/// Send multiple key codes as one report, then an empty report.
impl Action for Vec<KeyCode> {
    open spec fn trigger_spec(self, out: OutView) -> (Self, OutView) {
        (
            self,
            OutView {
                reports: out.reports.push(usb_bytes(self@)).push(Seq::<u8>::empty()),
                ..out
            },
        )
    }

    fn on_trigger(&mut self, output: &mut KeyOutCatcher) {
        output.send_keys(self.as_slice());
        output.send_empty();
    }
}

/// Whether `code` is in `codes`.
pub fn contains_code(codes: &Vec<u32>, code: u32) -> (r: bool)
    ensures
        r == codes@.contains(code),
{
    let mut i: usize = 0;
    while i < codes.len()
        invariant
            i <= codes@.len(),
            forall|j: int| 0 <= j < i ==> codes@[j] != code,
        decreases codes@.len() - i,
    {
        if codes[i] == code {
            return true;
        }
        i += 1;
    }
    false
}

/// The action of the first mapping for `code`, if any.
pub open spec fn first_action<T>(rw: Seq<(u32, T)>, code: u32) -> Option<T>
    decreases rw.len(),
{
    if rw.len() == 0 {
        None
    } else if rw[0].0 == code {
        Some(rw[0].1)
    } else {
        first_action(rw.subrange(1, rw.len() as int), code)
    }
}

/// Mappings before the first one for `code` do not matter.
pub proof fn lemma_first_action_skip<T>(rw: Seq<(u32, T)>, code: u32, i: int)
    requires
        0 <= i <= rw.len(),
        forall|j: int| 0 <= j < i ==> (#[trigger] rw[j]).0 != code,
    ensures
        first_action(rw, code) == first_action(rw.subrange(i, rw.len() as int), code),
    decreases i,
{
    if i > 0 {
        let rest = rw.subrange(1, rw.len() as int);
        assert forall|j: int| 0 <= j < i - 1 implies (#[trigger] rest[j]).0 != code by {
            assert(rest[j] == rw[j + 1]);
        }
        lemma_first_action_skip(rest, code, i - 1);
        assert(rest.subrange(i - 1, rest.len() as int) =~= rw.subrange(i, rw.len() as int));
    } else {
        assert(rw.subrange(0, rw.len() as int) =~= rw);
    }
}

/// The position of the first mapping for `code`, if any.
pub fn find_first<T>(rw: &[(u32, T)], code: u32) -> (r: Option<usize>)
    ensures
        match r {
            Some(i) => i < rw@.len() && rw@[i as int].0 == code && first_action(rw@, code) == Some(
                rw@[i as int].1,
            ),
            None => first_action(rw@, code) is None,
        },
{
    let mut i: usize = 0;
    while i < rw.len()
        invariant
            i <= rw@.len(),
            forall|j: int| 0 <= j < i ==> (#[trigger] rw@[j]).0 != code,
        decreases rw@.len() - i,
    {
        if rw[i].0 == code {
            proof {
                lemma_first_action_skip(rw@, code, i as int);
                let rest = rw@.subrange(i as int, rw@.len() as int);
                assert(rest[0] == rw@[i as int]);
            }
            return Some(i);
        }
        i += 1;
    }
    proof {
        lemma_first_action_skip(rw@, code, i as int);
    }
    None
}

/// A callback for when an on/off action is needed.
///
/// Used by PressReleaseMacros, StickyMacros, OneShots and SpaceCadets.
pub trait OnOff: Sized {
    /// What `on_activate` does: the callbacks afterwards, and the output
    /// afterwards (left unspecified by a type that does not define it).
    open spec fn activate_spec(self, out: OutView) -> (Self, OutView) {
        arbitrary()
    }

    /// What `on_deactivate` does: the callbacks afterwards, and the output
    /// afterwards (left unspecified by a type that does not define it).
    open spec fn deactivate_spec(self, out: OutView) -> (Self, OutView) {
        arbitrary()
    }

    fn on_activate(&mut self, output: &mut KeyOutCatcher)
        ensures
            (*final(self), final(output)@) == old(self).activate_spec(old(output)@),
    ;

    fn on_deactivate(&mut self, output: &mut KeyOutCatcher)
        ensures
            (*final(self), final(output)@) == old(self).deactivate_spec(old(output)@),
    ;
}

} // verus!
