//! Turning the state of a key matrix into key events.
use vstd::prelude::*;
use smallbitvec::SmallBitVec;
use crate::key_stream::{Event, EventStatus};
use crate::keyboard::{Keyboard, KeyboardCall, without_unhandled, survives_handling};
use crate::state::{bit_contents, sbv_from_elem, sbv_get, sbv_len, sbv_set};

verus! {

/// Removing the unhandled events from events that survived handling
/// leaves only ignored events.
pub proof fn lemma_only_ignored_left(events: Seq<(Event, EventStatus)>)
    requires
        forall|i: int| 0 <= i < events.len() ==> survives_handling(#[trigger] events[i]),
    ensures
        forall|i: int|
            0 <= i < without_unhandled(events).len() ==> (#[trigger] without_unhandled(events)[i]).1
                == EventStatus::Ignored,
    decreases events.len(),
{
    if events.len() > 0 {
        let rest = events.drop_last();
        assert forall|i: int| 0 <= i < rest.len() implies survives_handling(#[trigger] rest[i]) by {
            assert(rest[i] == events[i]);
        }
        lemma_only_ignored_left(rest);
        assert(survives_handling(events[events.len() - 1]));
    }
}

/// How many of the first `n` positions changed between `last` and `new`.
pub open spec fn changes(last: Seq<bool>, new: Seq<bool>, n: nat) -> nat
    decreases n,
{
    if n == 0 {
        0
    } else if last[n - 1] != new[n - 1] {
        changes(last, new, (n - 1) as nat) + 1
    } else {
        changes(last, new, (n - 1) as nat)
    }
}

/// What the keyboard is asked for the first `n` positions, in index order:
/// for each changed position a press (went down) or a release (went up) of
/// its key code, each handled right away and followed by dropping the
/// unhandled events.
pub open spec fn change_calls(
    last: Seq<bool>,
    new: Seq<bool>,
    codes: Seq<u32>,
    ms: u16,
    n: nat,
) -> Seq<KeyboardCall>
    decreases n,
{
    if n == 0 {
        Seq::empty()
    } else {
        let rest = change_calls(last, new, codes, ms, (n - 1) as nat);
        let i = n - 1;
        if last[i] != new[i] {
            let ev = if new[i] {
                KeyboardCall::Press(codes[i], ms)
            } else {
                KeyboardCall::Release(codes[i], ms)
            };
            rest + seq![ev, KeyboardCall::Handle, KeyboardCall::ClearUnhandled]
        } else {
            rest
        }
    }
}

/// What `update` asks of the keyboard: the changes, or, if no key changed,
/// a timeout, handled, followed by dropping the unhandled events.
pub open spec fn matrix_calls(last: Seq<bool>, new: Seq<bool>, codes: Seq<u32>, ms: u16) -> Seq<
    KeyboardCall,
> {
    if changes(last, new, last.len()) == 0 {
        seq![KeyboardCall::Timeout(ms), KeyboardCall::Handle, KeyboardCall::ClearUnhandled]
    } else {
        change_calls(last, new, codes, ms, last.len())
    }
}

proof fn lemma_no_changes_no_calls(
    last: Seq<bool>,
    new: Seq<bool>,
    codes: Seq<u32>,
    ms: u16,
    n: nat,
)
    requires
        changes(last, new, n) == 0,
    ensures
        change_calls(last, new, codes, ms, n) == Seq::<KeyboardCall>::empty(),
    decreases n,
{
    if n > 0 {
        lemma_no_changes_no_calls(last, new, codes, ms, (n - 1) as nat);
    }
}

/// Turns the key matrix state into key presses and releases.
pub struct MatrixToStream<'a> {
    last_state: SmallBitVec,
    translation: &'a [u32],
}

impl<'a> MatrixToStream<'a> {
    /// Whether each key was down at the last update.
    pub closed spec fn last(self) -> Seq<bool> {
        bit_contents(self.last_state)
    }

    /// The key code of each matrix position.
    pub closed spec fn codes(self) -> Seq<u32> {
        self.translation@
    }

    /// Every matrix position has a key code.
    pub open spec fn wf(self) -> bool {
        self.last().len() <= self.codes().len()
    }

    /// A matrix of `no_of_keys` keys, all up, with the key code of each position.
    pub fn new(no_of_keys: u8, translation: &'a [u32]) -> (r: MatrixToStream<'a>)
        requires
            no_of_keys as int <= translation@.len(),
        ensures
            r.last() == Seq::new(no_of_keys as nat, |i: int| false),
            r.codes() == translation@,
            r.wf(),
    {
        MatrixToStream { last_state: sbv_from_elem(no_of_keys as usize, false), translation }
    }

    /// Whether `new_state` has one bit per key of this matrix, as `update`
    /// requires.
    pub fn same_size(&self, new_state: &SmallBitVec) -> (r: bool)
        ensures
            r == (bit_contents(*new_state).len() == self.last().len()),
    {
        sbv_len(new_state) == sbv_len(&self.last_state)
    }

    /// Feed a new matrix state to the keyboard: every key that went down
    /// becomes a key press, every key that went up a key release (each
    /// handled right away, unhandled events are dropped); if nothing
    /// changed, a timeout is handled instead.
    pub fn update(&mut self, new_state: &SmallBitVec, keyboard: &mut Keyboard, ms_since_last: u16)
        requires
            old(self).wf(),
            bit_contents(*new_state).len() == old(self).last().len(),
        ensures
            final(self).last() == bit_contents(*new_state),
            final(self).codes() == old(self).codes(),
            final(self).wf(),
            final(keyboard).handler_count() == old(keyboard).handler_count(),
            final(keyboard).call_log() == old(keyboard).call_log() + matrix_calls(
                old(self).last(),
                bit_contents(*new_state),
                old(self).codes(),
                ms_since_last,
            ),
            final(keyboard).running() as int == (old(keyboard).running() + changes(
                old(self).last(),
                bit_contents(*new_state),
                old(self).last().len(),
            )) % 256,
            forall|i: int|
                0 <= i < final(keyboard).event_log().len() ==> (#[trigger] final(keyboard).event_log()[i]).1
                    == EventStatus::Ignored,
    {
        let len = sbv_len(&self.last_state);
        let mut any_changed = false;
        let mut ii: usize = 0;
        let ghost last0 = bit_contents(self.last_state);
        while ii < len
            invariant
                len == bit_contents(self.last_state).len(),
                len == bit_contents(*new_state).len(),
                len <= self.translation@.len(),
                bit_contents(self.last_state) == last0,
                self.translation@ == old(self).translation@,
                ii <= len,
                any_changed ==> forall|i: int|
                    0 <= i < keyboard.event_log().len() ==> (#[trigger] keyboard.event_log()[i]).1
                        == EventStatus::Ignored,
                keyboard.handler_count() == old(keyboard).handler_count(),
                any_changed <==> changes(last0, bit_contents(*new_state), ii as nat) > 0,
                keyboard.call_log() == old(keyboard).call_log() + change_calls(
                    last0,
                    bit_contents(*new_state),
                    self.translation@,
                    ms_since_last,
                    ii as nat,
                ),
                keyboard.running() as int == (old(keyboard).running() + changes(
                    last0,
                    bit_contents(*new_state),
                    ii as nat,
                )) % 256,
            decreases len - ii,
        {
            let old_bit = sbv_get(&self.last_state, ii).unwrap();
            let new_bit = sbv_get(new_state, ii).unwrap();
            let ghost calls0 = keyboard.call_log();
            let ghost running0 = keyboard.running();
            if old_bit != new_bit {
                if new_bit {
                    keyboard.add_keypress(self.translation[ii], ms_since_last);
                } else {
                    keyboard.add_keyrelease(self.translation[ii], ms_since_last);
                }
                let _ = keyboard.handle_keys();
                proof {
                    lemma_only_ignored_left(keyboard.event_log());
                }
                keyboard.clear_unhandled();
                any_changed = true;
                proof {
                    assert(keyboard.call_log() =~= old(keyboard).call_log() + change_calls(
                        last0,
                        bit_contents(*new_state),
                        self.translation@,
                        ms_since_last,
                        (ii + 1) as nat,
                    ));
                }
            }
            ii += 1;
        }
        assert(last0.len() == len);
        if !any_changed {
            assert(change_calls(last0, bit_contents(*new_state), self.translation@, ms_since_last, len as nat)
                =~= Seq::<KeyboardCall>::empty()) by {
                lemma_no_changes_no_calls(
                    last0,
                    bit_contents(*new_state),
                    self.translation@,
                    ms_since_last,
                    len as nat,
                );
            }
            keyboard.add_timeout(ms_since_last);
            let _ = keyboard.handle_keys();
            proof {
                lemma_only_ignored_left(keyboard.event_log());
            }
            keyboard.clear_unhandled();
        }
        let mut jj: usize = 0;
        while jj < len
            invariant
                len == bit_contents(self.last_state).len(),
                len == bit_contents(*new_state).len(),
                len <= self.translation@.len(),
                self.translation@ == old(self).translation@,
                jj <= len,
                forall|i: int|
                    0 <= i < jj ==> bit_contents(self.last_state)[i] == bit_contents(*new_state)[i],
            decreases len - jj,
        {
            let bit = sbv_get(new_state, jj).unwrap();
            sbv_set(&mut self.last_state, jj, bit);
            jj += 1;
        }
        assert(bit_contents(self.last_state) =~= bit_contents(*new_state));
    }
}

} // verus!
