//! A layer that only replaces key codes with other key codes.
use vstd::prelude::*;
use crate::handlers::{Call, CallResult, lemma_prepend_call};
use crate::handlers::{HandlerResult, ProcessKeys, first_action, find_first};
use crate::key_stream::{Event, EventStatus, Key};
use crate::output::{KeyOutCatcher, OutView};

verus! {

/// The key after a rewrite by a layer: a key that no layer rewrote yet
/// (flag bit 1 clear) gets the target code and is marked as rewritten.
pub open spec fn rewritten(kc: Key, to: u32) -> Key {
    if kc.flag & 2 == 0 {
        Key { keycode: to, flag: kc.flag | 2, ..kc }
    } else {
        kc
    }
}

/// Law: a rewrite keeps the original key code (which pairs a press with
/// its release), and a key that one layer rewrote is not rewritten by a
/// later layer.
pub proof fn law_rewrite_once(kc: Key, to: u32, to_later: u32)
    ensures
        rewritten(kc, to).original_keycode == kc.original_keycode,
        rewritten(rewritten(kc, to), to_later) == rewritten(kc, to),
{
    let f = kc.flag;
    assert((f | 2u8) & 2u8 != 0u8) by (bit_vector);
}

/// What a RewriteLayer does to one event.
pub open spec fn rewrite_step(rw: Seq<(u32, u32)>, entry: (Event, EventStatus)) -> (Event, EventStatus) {
    if entry.1 != EventStatus::Unhandled {
        entry
    } else {
        match entry.0 {
            Event::KeyPress(kc) => match first_action(rw, kc.keycode) {
                Some(to) => (Event::KeyPress(rewritten(kc, to)), entry.1),
                None => entry,
            },
            Event::KeyRelease(kc) => match first_action(rw, kc.keycode) {
                Some(to) => (Event::KeyRelease(rewritten(kc, to)), entry.1),
                None => entry,
            },
            Event::TimeOut(_) => entry,
        }
    }
}

/// A layer that *only* supports replacing key codes with other key codes.
///
/// The advantage of this is that you can use it with a const array
/// (slice), which greatly saves on ram compared to Layer (e.g.
/// premade::dvorak). Only the first mapping of a key code applies, and a
/// key that a layer rewrote already is not rewritten again.
pub struct RewriteLayer<'a> {
    rewrites: &'a [(u32, u32)],
}

impl<'a> RewriteLayer<'a> {
    /// The mappings, from key code to key code.
    pub closed spec fn mappings(self) -> Seq<(u32, u32)> {
        self.rewrites@
    }

    pub fn new(rewrites: &'a [(u32, u32)]) -> (r: RewriteLayer<'a>)
        ensures
            r.mappings() == rewrites@,
    {
        RewriteLayer { rewrites }
    }
}

/// The key with its code rewritten, unless a layer did so already.
fn rewrite_key(kc: Key, to: u32) -> (r: Key)
    ensures
        r == rewritten(kc, to),
{
    let mut kc = kc;
    if (kc.flag & 2) == 0 {
        kc.keycode = to;
        kc.flag = kc.flag | 2;
    }
    kc
}

impl<'a> ProcessKeys for RewriteLayer<'a> {
    open spec fn processes(&self, events: Seq<(Event, EventStatus)>, out: OutView) -> (
        Seq<(Event, EventStatus)>,
        OutView,
        HandlerResult,
    ) {
        (
            events.map_values(|e: (Event, EventStatus)| rewrite_step(self.mappings(), e)),
            out,
            HandlerResult::NoOp,
        )
    }

    closed spec fn behaviour(&self, calls: Seq<Call>) -> Seq<CallResult>
        decreases calls.len(),
    {
        if calls.len() == 0 {
            Seq::empty()
        } else {
            seq![self.processes(calls[0].0, calls[0].1)] + self.behaviour(calls.drop_first())
        }
    }


    fn process_keys(
        &mut self,
        events: &mut Vec<(Event, EventStatus)>,
        output: &mut KeyOutCatcher,
    ) -> (r: HandlerResult)
        ensures
            r == HandlerResult::NoOp,
            final(events)@.len() == old(events)@.len(),
            *final(self) == *old(self),
            forall|i: int|
                0 <= i < old(events)@.len() ==> #[trigger] final(events)@[i] == rewrite_step(
                    old(self).mappings(),
                    old(events)@[i],
                ),
            *final(output) == *old(output),
    {
        let n = events.len();
        let mut i: usize = 0;
        while i < n
            invariant
                n == events@.len(),
                n == old(events)@.len(),
                i <= n,
                *self == *old(self),
                forall|j: int|
                    0 <= j < i ==> #[trigger] events@[j] == rewrite_step(
                        old(self).mappings(),
                        old(events)@[j],
                    ),
                forall|j: int| i <= j < n ==> #[trigger] events@[j] == old(events)@[j],
            decreases n - i,
        {
            let (event, status) = events[i];
            if status == EventStatus::Unhandled {
                match event {
                    Event::KeyRelease(kc) => {
                        match find_first(self.rewrites, kc.keycode) {
                            Some(k) => {
                                events.set(i, (Event::KeyRelease(rewrite_key(kc, self.rewrites[k].1)), status));
                            },
                            None => {},
                        }
                    },
                    Event::KeyPress(kc) => {
                        match find_first(self.rewrites, kc.keycode) {
                            Some(k) => {
                                events.set(i, (Event::KeyPress(rewrite_key(kc, self.rewrites[k].1)), status));
                            },
                            None => {},
                        }
                    },
                    Event::TimeOut(_) => {},
                }
            }
            i += 1;
        }
        assert(events@ =~= old(events)@.map_values(
            |e: (Event, EventStatus)| rewrite_step(old(self).mappings(), e),
        ));
        proof {
            assert forall|calls: Seq<Call>|
                calls.len() > 0 implies #[trigger] self.behaviour(calls)[0] == self.processes(
                calls[0].0,
                calls[0].1,
            ) by {
            lemma_prepend_call(
                calls[0],
                calls.drop_first(),
                self.processes(calls[0].0, calls[0].1),
                self.behaviour(calls.drop_first()),
            );
            }
            assert forall|calls: Seq<Call>|
                calls.len() > 0 implies #[trigger] old(self).behaviour(calls)[0] == old(self).processes(
                calls[0].0,
                calls[0].1,
            ) by {
            lemma_prepend_call(
                calls[0],
                calls.drop_first(),
                old(self).processes(calls[0].0, calls[0].1),
                old(self).behaviour(calls.drop_first()),
            );
            }
            let x = (old(events)@, old(output)@);
            assert(*self == *old(self));
            assert forall|calls: Seq<Call>|
                #[trigger] self.behaviour(calls) == old(self).behaviour(seq![x] + calls).drop_first() by {
                lemma_prepend_call(x, calls, old(self).processes(x.0, x.1), self.behaviour(calls));
            }
        }
        HandlerResult::NoOp
    }

    /// Layers start disabled.
    open spec fn starts_enabled(&self) -> bool {
        false
    }

    fn default_enabled(&self) -> (r: bool)
        ensures
            r == false,
    {
        false
    }

    fn oneshot_triggers(&self) -> (r: Vec<u32>) {
        Vec::new()
    }
}


/// Law: a key event that one RewriteLayer rewrote passes every later
/// RewriteLayer unchanged (stacked layers do not rewrite twice).
pub proof fn law_rewrite_layers_stack(
    first: Seq<(u32, u32)>,
    later: Seq<(u32, u32)>,
    entry: (Event, EventStatus),
    kc: Key,
)
    requires
        entry.0 == Event::KeyPress(kc) || entry.0 == Event::KeyRelease(kc),
        first_action(first, kc.keycode) is Some,
    ensures
        rewrite_step(later, rewrite_step(first, entry)) == rewrite_step(first, entry),
{
    let to = first_action(first, kc.keycode)->0;
    law_rewrite_once(kc, to, 0);
    let r = rewritten(kc, to);
    match first_action(later, r.keycode) {
        Some(t) => law_rewrite_once(kc, to, t),
        None => {},
    }
}

} // verus!
