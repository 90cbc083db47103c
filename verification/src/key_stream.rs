//! The events that the handlers process: key presses, key releases and timeouts.
use vstd::prelude::*;

verus! {

/// A key press or release as it travels through the handlers.
#[derive(PartialEq, Eq, Structural, Debug, Clone, Copy)]
pub struct Key {
    /// the current key code; layers may rewrite it
    pub keycode: u32,
    /// the key code that was pressed; used to match press/release pairs
    pub original_keycode: u32,
    pub ms_since_last: u16,
    pub running_number: u8,
    /// bit 0: USBKeyboard has reported this key press before;
    /// bit 1: a layer has rewritten this key already
    pub flag: u8,
}

impl Key {
    /// A key event for `keycode`, with no time elapsed, number 0 and no flags.
    pub fn new(keycode: u32) -> (r: Key)
        ensures
            r == (Key {
                keycode: keycode,
                original_keycode: keycode,
                ms_since_last: 0,
                running_number: 0,
                flag: 0,
            }),
    {
        Key { keycode, original_keycode: keycode, ms_since_last: 0, running_number: 0, flag: 0 }
    }
}

#[derive(PartialEq, Eq, Structural, Debug, Clone, Copy)]
pub enum Event {
    KeyPress(Key),
    KeyRelease(Key),
    TimeOut(u16),
}

#[derive(PartialEq, Eq, Structural, Debug, Clone, Copy)]
pub enum EventStatus {
    Unhandled,
    Handled,
    Ignored,
}

/// Whether the status of an event is `Unhandled`.
pub open spec fn is_unhandled(entry: (Event, EventStatus)) -> bool {
    entry.1 == EventStatus::Unhandled
}

/// The positions of the unhandled events, in increasing order.
pub fn iter_unhandled_mut(events: &Vec<(Event, EventStatus)>) -> (r: Vec<usize>)
    ensures
        forall|i: int, j: int| 0 <= i < j < r@.len() ==> r@[i] < r@[j],
        forall|i: int|
            #![trigger r@[i]]
            0 <= i < r@.len() ==> r@[i] < events@.len() && is_unhandled(events@[r@[i] as int]),
        forall|k: int|
            0 <= k < events@.len() && is_unhandled(#[trigger] events@[k]) ==> r@.contains(
                k as usize,
            ),
{
    let mut r: Vec<usize> = Vec::new();
    let mut i: usize = 0;
    while i < events.len()
        invariant
            i <= events@.len(),
            forall|a: int, b: int| 0 <= a < b < r@.len() ==> r@[a] < r@[b],
            forall|a: int|
                #![trigger r@[a]]
                0 <= a < r@.len() ==> r@[a] < i && is_unhandled(events@[r@[a] as int]),
            forall|k: int| 0 <= k < i && is_unhandled(#[trigger] events@[k]) ==> r@.contains(
                k as usize,
            ),
        decreases events@.len() - i,
    {
        let ghost old_r = r@;
        if events[i].1 == EventStatus::Unhandled {
            r.push(i);
            assert(r@ == old_r.push(i));
            assert(r@[r@.len() - 1] == i);
            assert forall|k: int| 0 <= k < i + 1 && is_unhandled(#[trigger] events@[k]) implies r@.contains(k as usize) by {
                if k < i {
                    let w = choose|w: int| 0 <= w < old_r.len() && old_r[w] == k as usize;
                    assert(r@[w] == k as usize);
                }
            }
        }
        i += 1;
    }
    r
}

} // verus!
