//! Sequences: a series of key strokes that, once complete, is erased with
//! backspaces and replaced by an action.
use vstd::prelude::*;
use crate::handlers::{Call, CallResult, lemma_prepend_call};
use crate::handlers::{Action, HandlerResult, ProcessKeys, contains_code};
use crate::handlers::usbkeyboard::add_unique;
use crate::key_codes::{KeyCode, KeyCodeInfo, is_private_code};
use crate::key_stream::{Event, EventStatus, Key};
use crate::output::{KeyOutCatcher, OutView, usb_bytes};

verus! {

/// The key code the sequence expects at position `pos`, if any.
pub open spec fn expected(sequence: Seq<u32>, pos: u8) -> Option<u32> {
    if (pos as int) < sequence.len() {
        Some(sequence[pos as int])
    } else {
        None
    }
}

/// What a sequence has seen while scanning the events newest first: its
/// position, and the original key codes of completed sequences' last keys.
pub ghost struct SequenceScan {
    pub pos: u8,
    pub deleted: Seq<u32>,
}

/// A sequence's treatment of one event.
pub open spec fn sequence_step(sequence: Seq<u32>, s: SequenceScan, entry: (Event, EventStatus)) -> (
    SequenceScan,
    (Event, EventStatus),
) {
    if entry.1 != EventStatus::Unhandled {
        (s, entry)
    } else {
        match entry.0 {
            Event::KeyRelease(kc) => if expected(sequence, s.pos) == Some(kc.keycode) {
                let status1 = if is_private_code(kc.keycode) {
                    EventStatus::Handled
                } else {
                    entry.1
                };
                if s.pos + 1 == sequence.len() {
                    (
                        SequenceScan { pos: 0, deleted: add_unique(s.deleted, kc.original_keycode) },
                        (entry.0, EventStatus::Handled),
                    )
                } else {
                    (SequenceScan { pos: (s.pos + 1) as u8, ..s }, (entry.0, status1))
                }
            } else {
                (SequenceScan { pos: 0, ..s }, entry)
            },
            Event::KeyPress(kc) => {
                let status1 = if s.deleted.contains(kc.original_keycode) {
                    EventStatus::Handled
                } else {
                    entry.1
                };
                let status2 = if expected(sequence, s.pos) == Some(kc.keycode) && is_private_code(
                    kc.keycode,
                ) {
                    EventStatus::Handled
                } else {
                    status1
                };
                (s, (entry.0, status2))
            },
            Event::TimeOut(_) => (s, entry),
        }
    }
}

/// A sequence's scan of all events, from the newest to the oldest.
pub open spec fn sequence_scan(sequence: Seq<u32>, s: SequenceScan, events: Seq<(Event, EventStatus)>) -> (
    SequenceScan,
    Seq<(Event, EventStatus)>,
)
    decreases events.len(),
{
    if events.len() == 0 {
        (s, events)
    } else {
        let (s1, rest) = sequence_scan(sequence, s, events.subrange(1, events.len() as int));
        let (s2, first) = sequence_step(sequence, s1, events[0]);
        (s2, seq![first] + rest)
    }
}

/// `n` taps of backspace: each a report with BSpace, then an empty report.
pub open spec fn backspace_taps(n: nat) -> Seq<Seq<u8>>
    decreases n,
{
    if n == 0 {
        Seq::empty()
    } else {
        backspace_taps((n - 1) as nat) + seq![usb_bytes(seq![KeyCode::BSpace]), Seq::<u8>::empty()]
    }
}

/// Whether `entry` is the release that completes the sequence, which
/// expects its key at position `pos`.
pub open spec fn completes(sequence: Seq<u32>, pos: u8, entry: (Event, EventStatus)) -> bool {
    &&& entry.1 == EventStatus::Unhandled
    &&& entry.0 matches Event::KeyRelease(kc) && expected(sequence, pos) == Some(kc.keycode)
    &&& pos + 1 == sequence.len()
}

/// The action and the output after one event, given the position before
/// it: completing the sequence sends the backspaces, then calls the action.
pub open spec fn sequence_call<M: Action>(
    sequence: Seq<u32>,
    backspaces: u8,
    pos: u8,
    cb: (M, OutView),
    entry: (Event, EventStatus),
) -> (M, OutView) {
    if completes(sequence, pos, entry) {
        cb.0.trigger_spec(OutView { reports: cb.1.reports + backspace_taps(backspaces as nat), ..cb.1 })
    } else {
        cb
    }
}

/// The action and the output after a list of events, taken newest first.
pub open spec fn sequence_calls<M: Action>(
    sequence: Seq<u32>,
    backspaces: u8,
    start: SequenceScan,
    cb: (M, OutView),
    events: Seq<(Event, EventStatus)>,
) -> (M, OutView)
    decreases events.len(),
{
    if events.len() == 0 {
        cb
    } else {
        let rest = events.subrange(1, events.len() as int);
        sequence_call(
            sequence,
            backspaces,
            sequence_scan(sequence, start, rest).0.pos,
            sequence_calls(sequence, backspaces, start, cb, rest),
            events[0],
        )
    }
}

/// A sequence is a series of key strokes (press and release) that upon
/// finish (ie. the release of the last key) sends first a (configurable)
/// number of backspaces (to undo the input) and then an action.
///
/// Sequence keys, even if matching, are not handled by Sequence, except if
/// they're from the private range, in which case the Sequence consumes the
/// events.
///
/// It is suggested to prefix your sequences with a unicode symbol, so you
/// can observe the feedback. For a final KeyCode::*, you will need to send
/// a backspace, but for a final unicode (or private) one you don't.
pub struct Sequence<'a, M> {
    sequence: &'a [u32],
    callback: M,
    backspaces: u8,
    pos: u8,
}

impl<'a, M: Action> Sequence<'a, M> {

    /// The handler after a `process_keys` call on these events and output.
    pub closed spec fn after_run(&self, events: Seq<(Event, EventStatus)>, out: OutView) -> Self {
        let start = SequenceScan { pos: self.pos, deleted: Seq::empty() };
        Sequence {
            pos: sequence_scan(self.sequence@, start, events).0.pos,
            callback: sequence_calls(self.sequence@, self.backspaces, start, (self.callback, out), events).0,
            ..*self
        }
    }
    /// The key codes of the sequence.
    pub closed spec fn codes(self) -> Seq<u32> {
        self.sequence@
    }

    /// How many keys of the sequence have been typed.
    pub closed spec fn position(self) -> u8 {
        self.pos
    }

    /// How many backspaces are sent once the sequence is complete.
    pub closed spec fn erase_count(self) -> u8 {
        self.backspaces
    }

    /// The action.
    pub closed spec fn callback(self) -> M {
        self.callback
    }

    /// A sequence is never empty, at most 254 keys long, and its position
    /// is inside it.
    pub open spec fn wf(self) -> bool {
        0 < self.codes().len() <= 254 && (self.position() as int) < self.codes().len()
    }

    /// The sequence may be at most 254 key codes long (and must not be empty).
    pub fn new(sequence: &'a [u32], callback: M, backspaces: u8) -> (r: Sequence<'a, M>)
        requires
            0 < sequence@.len() <= 254,
        ensures
            r.codes() == sequence@,
            r.position() == 0,
            r.erase_count() == backspaces,
            r.callback() == callback,
            r.wf(),
    {
        Sequence { sequence, callback, backspaces, pos: 0 }
    }
}

impl<'a, M: Action> ProcessKeys for Sequence<'a, M> {
    open spec fn processes(&self, events: Seq<(Event, EventStatus)>, out: OutView) -> (
        Seq<(Event, EventStatus)>,
        OutView,
        HandlerResult,
    ) {
        let start = SequenceScan { pos: self.position(), deleted: Seq::empty() };
        (
            sequence_scan(self.codes(), start, events).1,
            sequence_calls(self.codes(), self.erase_count(), start, (self.callback(), out), events).1,
            HandlerResult::NoOp,
        )
    }

    closed spec fn behaviour(&self, calls: Seq<Call>) -> Seq<CallResult>
        decreases calls.len(),
    {
        if calls.len() == 0 {
            Seq::empty()
        } else {
            seq![self.processes(calls[0].0, calls[0].1)] + self.after_run(calls[0].0, calls[0].1).behaviour(calls.drop_first())
        }
    }


    /// Scans the events newest first. A release of the expected key moves
    /// the sequence on (another release resets it); the release that
    /// completes the sequence sends the backspaces (each followed by an
    /// empty report), calls the action and is consumed, as is the press of
    /// that key.
    fn process_keys(
        &mut self,
        events: &mut Vec<(Event, EventStatus)>,
        output: &mut KeyOutCatcher,
    ) -> (r: HandlerResult)
        ensures
            r == HandlerResult::NoOp,
            final(self).codes() == old(self).codes(),
            final(self).erase_count() == old(self).erase_count(),
            ({
                let (s, evs) = sequence_scan(
                    old(self).codes(),
                    SequenceScan { pos: old(self).position(), deleted: Seq::empty() },
                    old(events)@,
                );
                &&& final(events)@ == evs
                &&& final(self).position() == s.pos
                &&& (final(self).callback(), final(output)@) == sequence_calls(
                    old(self).codes(),
                    old(self).erase_count(),
                    SequenceScan { pos: old(self).position(), deleted: Seq::empty() },
                    (old(self).callback(), old(output)@),
                    old(events)@,
                )
            }),
            old(self).wf() ==> final(self).wf(),
    {
        let mut codes_to_delete: Vec<u32> = Vec::new();
        let ghost start = SequenceScan { pos: self.pos, deleted: Seq::empty() };
        let n = events.len();
        let mut i = n;
        while i > 0
            invariant
                n == events@.len(),
                n == old(events)@.len(),
                i <= n,
                self.sequence == old(self).sequence,
                self.backspaces == old(self).backspaces,
                start == (SequenceScan { pos: old(self).pos, deleted: Seq::empty() }),
                old(self).wf() ==> (self.pos as int) < self.sequence@.len(),
                events@.subrange(0, i as int) == old(events)@.subrange(0, i as int),
                ({
                    let (s, evs) = sequence_scan(
                        self.sequence@,
                        start,
                        old(events)@.subrange(i as int, n as int),
                    );
                    &&& events@.subrange(i as int, n as int) == evs
                    &&& s.deleted == codes_to_delete@
                    &&& s.pos == self.pos
                }),
                (self.callback, output@) == sequence_calls(
                    self.sequence@,
                    self.backspaces,
                    start,
                    (old(self).callback, old(output)@),
                    old(events)@.subrange(i as int, n as int),
                ),
            decreases i,
        {
            i -= 1;
            let ghost suffix = old(events)@.subrange(i as int + 1, n as int);
            let ghost full = old(events)@.subrange(i as int, n as int);
            assert(full.subrange(1, full.len() as int) =~= suffix);
            assert(full[0] == old(events)@[i as int]);
            let ghost before = events@;
            let (event, status) = events[i];
            assert(events@[i as int] == old(events)@.subrange(0, i + 1)[i as int]);
            if status == EventStatus::Unhandled {
                let len = self.sequence.len();
                let expects = (self.pos as usize) < len;
                match event {
                    Event::KeyRelease(kc) => {
                        if expects && kc.keycode == self.sequence[self.pos as usize] {
                            let mut new_status = status;
                            if kc.keycode.is_private_keycode() {
                                new_status = EventStatus::Handled;
                            }
                            let next = self.pos as usize + 1;
                            if next == len {
                                self.pos = 0;
                                let ghost out0 = output@;
                                let mut b: u8 = 0;
                                while b < self.backspaces
                                    invariant
                                        b <= self.backspaces,
                                        output@ == (OutView {
                                            reports: out0.reports + backspace_taps(b as nat),
                                            ..out0
                                        }),
                                    decreases self.backspaces - b,
                                {
                                    let ghost log0 = output@.reports;
                                    output.send_keys(&[KeyCode::BSpace]);
                                    output.send_empty();
                                    assert(output@.reports =~~= log0 + seq![
                                        usb_bytes(seq![KeyCode::BSpace]),
                                        Seq::<u8>::empty(),
                                    ]);
                                    assert(backspace_taps((b + 1) as nat) == backspace_taps(b as nat)
                                        + seq![usb_bytes(seq![KeyCode::BSpace]), Seq::<u8>::empty()]);
                                    assert(output@.reports =~= out0.reports + backspace_taps((b + 1) as nat));
                                    b += 1;
                                }
                                self.callback.on_trigger(output);
                                new_status = EventStatus::Handled;
                                if !contains_code(&codes_to_delete, kc.original_keycode) {
                                    codes_to_delete.push(kc.original_keycode);
                                }
                            } else {
                                self.pos = next as u8;
                            }
                            events.set(i, (event, new_status));
                        } else {
                            self.pos = 0;
                        }
                    },
                    Event::KeyPress(kc) => {
                        let mut new_status = status;
                        if contains_code(&codes_to_delete, kc.original_keycode) {
                            new_status = EventStatus::Handled;
                        }
                        if expects && kc.keycode == self.sequence[self.pos as usize]
                            && kc.keycode.is_private_keycode() {
                            new_status = EventStatus::Handled;
                        }
                        events.set(i, (event, new_status));
                    },
                    _ => {},
                }
            }
            assert(events@.subrange(i as int, n as int) =~= seq![events@[i as int]]
                + events@.subrange(i + 1, n as int));
            assert(events@.subrange(i + 1, n as int) =~= before.subrange(i + 1, n as int));
            assert(events@.subrange(0, i as int) =~= before.subrange(0, i as int));
        }
        assert(events@.subrange(0, n as int) =~= events@);
        assert(old(events)@.subrange(0, n as int) =~= old(events)@);
        proof {
            assert forall|calls: Seq<Call>|
                calls.len() > 0 implies #[trigger] self.behaviour(calls)[0] == self.processes(
                calls[0].0,
                calls[0].1,
            ) by {
            lemma_prepend_call(
                calls[0],
                calls.drop_first(),
                self.processes(calls[0].0, calls[0].1),
                self.after_run(calls[0].0, calls[0].1).behaviour(calls.drop_first()),
            );
            }
            assert forall|calls: Seq<Call>|
                calls.len() > 0 implies #[trigger] old(self).behaviour(calls)[0] == old(self).processes(
                calls[0].0,
                calls[0].1,
            ) by {
            lemma_prepend_call(
                calls[0],
                calls.drop_first(),
                old(self).processes(calls[0].0, calls[0].1),
                old(self).after_run(calls[0].0, calls[0].1).behaviour(calls.drop_first()),
            );
            }
            let x = (old(events)@, old(output)@);
            assert(*self == old(self).after_run(x.0, x.1));
            assert forall|calls: Seq<Call>|
                #[trigger] self.behaviour(calls) == old(self).behaviour(seq![x] + calls).drop_first() by {
                lemma_prepend_call(x, calls, old(self).processes(x.0, x.1), self.behaviour(calls));
            }
        }
        HandlerResult::NoOp
    }

    fn default_enabled(&self) -> (r: bool) {
        true
    }

    fn oneshot_triggers(&self) -> (r: Vec<u32>) {
        Vec::new()
    }
}


/// Law: a sequence advances by one on the release of the key it expects
/// next, and completes (back at the start, the release consumed) on the
/// release of its last key; any other release starts it over.
pub proof fn law_sequence_progress(sequence: Seq<u32>, pos: u8, kc: Key)
    requires
        0 < sequence.len() <= 254,
        (pos as int) < sequence.len(),
    ensures
        ({
            let (s, evs) = sequence_scan(
                sequence,
                SequenceScan { pos: pos, deleted: Seq::empty() },
                seq![(Event::KeyRelease(kc), EventStatus::Unhandled)],
            );
            &&& (kc.keycode == sequence[pos as int] && pos + 1 < sequence.len()) ==> s.pos == pos
                + 1
            &&& (kc.keycode == sequence[pos as int] && pos + 1 == sequence.len()) ==> (s.pos == 0
                && evs[0].1 == EventStatus::Handled)
            &&& kc.keycode != sequence[pos as int] ==> s.pos == 0
        }),
{
    let events = seq![(Event::KeyRelease(kc), EventStatus::Unhandled)];
    let start = SequenceScan { pos: pos, deleted: Seq::empty() };
    assert(events.subrange(1, 1) =~= Seq::<(Event, EventStatus)>::empty());
    assert(sequence_scan(sequence, start, events.subrange(1, 1)).0 == start);
    let step = sequence_step(sequence, start, events[0]);
    assert(sequence_scan(sequence, start, events).0 == step.0);
    assert(sequence_scan(sequence, start, events).1[0] == step.1);
    assert(expected(sequence, pos) == Some(sequence[pos as int]));
}

} // verus!
