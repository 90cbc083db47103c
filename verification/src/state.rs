//! The keyboard state shared by all handlers: the modifiers, the abort
//! signal, the enabled/disabled bit of every handler, and the unicode mode.
use vstd::prelude::*;
use smallbitvec::SmallBitVec;

verus! {

#[verifier::external_type_specification]
#[verifier::external_body]
pub struct ExSmallBitVec(SmallBitVec);

/// The bits a `SmallBitVec` holds, in order.
pub uninterp spec fn bit_contents(v: SmallBitVec) -> Seq<bool>;

/// `SmallBitVec::from_elem` (what `sbvec![val; len]` expands to):
/// a vector of `len` copies of `val`. (Its capacity arithmetic panics
/// only for lengths near `usize::MAX`, which the bound leaves out.)
#[verifier::external_body]
pub(crate) fn sbv_from_elem(len: usize, val: bool) -> (r: SmallBitVec)
    requires
        len < 0x1000_0000,
    ensures
        bit_contents(r) == Seq::new(len as nat, |i: int| val),
{
    SmallBitVec::from_elem(len, val)
}

/// `SmallBitVec::len`: the number of bits stored.
#[verifier::external_body]
pub(crate) fn sbv_len(v: &SmallBitVec) -> (r: usize)
    ensures
        r == bit_contents(*v).len(),
{
    v.len()
}

/// `SmallBitVec::get`: the bit at `n`, or `None` past the end.
#[verifier::external_body]
pub(crate) fn sbv_get(v: &SmallBitVec, n: usize) -> (r: Option<bool>)
    ensures
        r == (if n < bit_contents(*v).len() {
            Some(bit_contents(*v)[n as int])
        } else {
            None
        }),
{
    v.get(n)
}

/// `SmallBitVec::set`: replaces the bit at `n` (it asserts `n < len`, so it
/// does not unwind under this precondition).
#[verifier::external_body]
pub(crate) fn sbv_set(v: &mut SmallBitVec, n: usize, val: bool)
    requires
        n < bit_contents(*old(v)).len(),
    ensures
        bit_contents(*final(v)) == bit_contents(*old(v)).update(n as int, val),
    no_unwind
{
    v.set(n, val)
}

/// `SmallBitVec::push`: appends a bit (it grows the storage by doubling,
/// and its capacity arithmetic panics only for lengths near `usize::MAX`,
/// which the bound leaves out).
#[verifier::external_body]
pub(crate) fn sbv_push(v: &mut SmallBitVec, val: bool)
    requires
        bit_contents(*old(v)).len() < 0x1000_0000,
    ensures
        bit_contents(*final(v)) == bit_contents(*old(v)).push(val),
    no_unwind
{
    v.push(val)
}

/// Number of leading bits that are not handler bits: four modifiers and the abort bit.
pub const KEYBOARD_STATE_RESERVED_BITS: usize = 5;

/// Position of the abort signal among the state bits.
pub const ABORT_BIT: usize = 4;

/// The state bits after an abort: the modifiers and the abort signal
/// cleared, the handler bits kept.
pub open spec fn reset_reserved(flags: Seq<bool>) -> Seq<bool> {
    Seq::new(
        flags.len(),
        |i: int|
            if i < KEYBOARD_STATE_RESERVED_BITS {
                false
            } else {
                flags[i]
            },
    )
}

/// An identifier for an added handler: the position of its enabled bit
/// in the keyboard state (the modifiers occupy positions 0 to 3).
pub type HandlerID = usize;

/// The four modifiers the keyboard state tracks.
#[derive(PartialEq, Eq, Structural, Hash, Copy, Clone, Debug)]
pub enum Modifier {
    Shift,
    Ctrl,
    Alt,
    Gui,
}

impl Modifier {
    /// Position of the modifier's bit in the keyboard state.
    pub open spec fn bit(self) -> int {
        match self {
            Modifier::Shift => 0,
            Modifier::Ctrl => 1,
            Modifier::Alt => 2,
            Modifier::Gui => 3,
        }
    }

    /// Position of the modifier's bit in the keyboard state.
    pub fn to_bit(self) -> (r: usize)
        ensures
            r == self.bit(),
    {
        match self {
            Modifier::Shift => 0,
            Modifier::Ctrl => 1,
            Modifier::Alt => 2,
            Modifier::Gui => 3,
        }
    }
}

/// Different operating systems expect random unicode input as different
/// key combinations. We can't detect what we're connected to, so the
/// keyboard needs to provide some kind of switch key.
#[derive(Clone, Copy, Debug, PartialEq, Eq, Structural)]
pub enum UnicodeSendMode {
    /// default X: Ctrl+Shift+U, then the hex digits
    Linux,
    LinuxDvorak,
    /// use https://github.com/samhocevar/wincompose
    WinCompose,
    WinComposeDvorak,
    /// only the hex digits (digits from the keypad), for tests
    Debug,
}

impl Default for UnicodeSendMode {
    fn default() -> (r: UnicodeSendMode)
        ensures
            r == UnicodeSendMode::Linux,
    {
        UnicodeSendMode::Linux
    }
}

/// The modifier bits, the abort bit and the handler bits.
/// There are always at least the reserved bits.
struct StateBits {
    bits: SmallBitVec,
}

impl StateBits {
    #[verifier::type_invariant]
    spec fn has_reserved_bits(self) -> bool {
        bit_contents(self.bits).len() >= KEYBOARD_STATE_RESERVED_BITS
    }

    closed spec fn view(self) -> Seq<bool> {
        bit_contents(self.bits)
    }

    fn new() -> (r: StateBits)
        ensures
            r.view() == Seq::new(KEYBOARD_STATE_RESERVED_BITS as nat, |i: int| false),
    {
        StateBits { bits: sbv_from_elem(KEYBOARD_STATE_RESERVED_BITS, false) }
    }

    fn len(&self) -> (r: usize)
        ensures
            r == self.view().len(),
            r >= KEYBOARD_STATE_RESERVED_BITS,
    {
        proof {
            use_type_invariant(self);
        }
        sbv_len(&self.bits)
    }

    fn get(&self, n: usize) -> (r: bool)
        requires
            n < self.view().len(),
        ensures
            r == self.view()[n as int],
    {
        sbv_get(&self.bits, n).unwrap()
    }

    fn set(&mut self, n: usize, val: bool)
        requires
            n < old(self).view().len(),
        ensures
            final(self).view() == old(self).view().update(n as int, val),
    {
        proof {
            use_type_invariant(&*self);
        }
        sbv_set(&mut self.bits, n, val);
    }

    fn push(&mut self, val: bool)
        requires
            old(self).view().len() < 0x1000_0000,
        ensures
            final(self).view() == old(self).view().push(val),
    {
        proof {
            use_type_invariant(&*self);
        }
        sbv_push(&mut self.bits, val);
    }
}

/// The current keyboard state.
pub struct KeyboardState {
    pub unicode_mode: UnicodeSendMode,
    modifiers_and_enabled_handlers: StateBits,
    oneshot_triggers: Vec<u32>,
}

impl KeyboardState {
    /// The state bits: four modifiers, the abort bit, then one enabled bit per handler.
    pub closed spec fn flags(self) -> Seq<bool> {
        self.modifiers_and_enabled_handlers.view()
    }

    /// How unicode characters are sent to the host.
    pub closed spec fn mode(self) -> UnicodeSendMode {
        self.unicode_mode
    }

    /// The key codes that trigger one shots; one shots do not deactivate
    /// on these, and layers that turn off after non-modifiers ignore them.
    pub closed spec fn oneshot_triggers(self) -> Seq<u32> {
        self.oneshot_triggers@
    }

    /// Whether the modifier `m` is set.
    pub open spec fn spec_modifier(self, m: Modifier) -> bool {
        self.flags()[m.bit()]
    }

    /// Whether the abort signal is set.
    pub open spec fn spec_aborted(self) -> bool {
        self.flags()[ABORT_BIT as int]
    }

    /// Linux unicode input, no modifier set, no abort, no handlers, no one shot triggers.
    pub fn new() -> (r: KeyboardState)
        ensures
            r.mode() == UnicodeSendMode::Linux,
            r.flags() == Seq::new(KEYBOARD_STATE_RESERVED_BITS as nat, |i: int| false),
            r.oneshot_triggers() == Seq::<u32>::empty(),
    {
        KeyboardState {
            unicode_mode: UnicodeSendMode::Linux,
            modifiers_and_enabled_handlers: StateBits::new(),
            oneshot_triggers: Vec::new(),
        }
    }

    /// How unicode characters are sent to the host.
    pub fn unicode_mode(&self) -> (r: UnicodeSendMode)
        ensures
            r == self.mode(),
    {
        self.unicode_mode
    }

    /// Change how unicode characters are sent to the host.
    pub fn set_unicode_mode(&mut self, mode: UnicodeSendMode)
        ensures
            final(self).mode() == mode,
            final(self).flags() == old(self).flags(),
            final(self).oneshot_triggers() == old(self).oneshot_triggers(),
    {
        self.unicode_mode = mode;
    }

    /// The number of state bits (at least the five reserved ones).
    pub fn len(&self) -> (r: usize)
        ensures
            r == self.flags().len(),
            r >= KEYBOARD_STATE_RESERVED_BITS,
    {
        self.modifiers_and_enabled_handlers.len()
    }

    pub fn modifier(&self, modifier: Modifier) -> (r: bool)
        ensures
            r == self.spec_modifier(modifier),
    {
        let _len = self.modifiers_and_enabled_handlers.len();
        self.modifiers_and_enabled_handlers.get(modifier.to_bit())
    }

    pub fn set_modifier(&mut self, modifier: Modifier, value: bool)
        ensures
            final(self).flags() == old(self).flags().update(modifier.bit(), value),
            final(self).mode() == old(self).mode(),
            final(self).oneshot_triggers() == old(self).oneshot_triggers(),
    {
        let _len = self.modifiers_and_enabled_handlers.len();
        self.modifiers_and_enabled_handlers.set(modifier.to_bit(), value);
    }

    pub fn enable_handler(&mut self, no: HandlerID)
        requires
            no < old(self).flags().len(),
        ensures
            final(self).flags() == old(self).flags().update(no as int, true),
            final(self).mode() == old(self).mode(),
            final(self).oneshot_triggers() == old(self).oneshot_triggers(),
    {
        self.modifiers_and_enabled_handlers.set(no, true);
    }

    pub fn disable_handler(&mut self, no: HandlerID)
        requires
            no < old(self).flags().len(),
        ensures
            final(self).flags() == old(self).flags().update(no as int, false),
            final(self).mode() == old(self).mode(),
            final(self).oneshot_triggers() == old(self).oneshot_triggers(),
    {
        self.modifiers_and_enabled_handlers.set(no, false);
    }

    pub fn set_handler(&mut self, no: HandlerID, enabled: bool)
        requires
            no < old(self).flags().len(),
        ensures
            final(self).flags() == old(self).flags().update(no as int, enabled),
            final(self).mode() == old(self).mode(),
            final(self).oneshot_triggers() == old(self).oneshot_triggers(),
    {
        self.modifiers_and_enabled_handlers.set(no, enabled);
    }

    pub fn toggle_handler(&mut self, no: HandlerID)
        requires
            no < old(self).flags().len(),
        ensures
            final(self).flags() == old(self).flags().update(no as int, !old(self).flags()[no as int]),
            final(self).mode() == old(self).mode(),
            final(self).oneshot_triggers() == old(self).oneshot_triggers(),
    {
        let current = self.modifiers_and_enabled_handlers.get(no);
        self.modifiers_and_enabled_handlers.set(no, !current);
    }

    pub fn is_handler_enabled(&self, no: HandlerID) -> (r: bool)
        requires
            no < self.flags().len(),
        ensures
            r == self.flags()[no as int],
    {
        self.modifiers_and_enabled_handlers.get(no)
    }

    /// Tell the Keyboard to stop running handlers, to clear all remaining
    /// events, unhandled or not, and to reset all modifiers.
    pub fn abort_and_clear_events(&mut self)
        ensures
            final(self).flags() == old(self).flags().update(ABORT_BIT as int, true),
            final(self).mode() == old(self).mode(),
            final(self).oneshot_triggers() == old(self).oneshot_triggers(),
    {
        let _len = self.modifiers_and_enabled_handlers.len();
        self.modifiers_and_enabled_handlers.set(ABORT_BIT, true);
    }

    /// What the keyboard does after an abort: clear the abort signal and
    /// reset all modifiers.
    pub(crate) fn _clear_abort(&mut self)
        ensures
            final(self).flags() == reset_reserved(old(self).flags()),
            final(self).mode() == old(self).mode(),
            final(self).oneshot_triggers() == old(self).oneshot_triggers(),
    {
        let _len = self.modifiers_and_enabled_handlers.len();
        self.modifiers_and_enabled_handlers.set(ABORT_BIT, false);
        self.set_modifier(Modifier::Shift, false);
        self.set_modifier(Modifier::Ctrl, false);
        self.set_modifier(Modifier::Alt, false);
        self.set_modifier(Modifier::Gui, false);
        assert(self.flags() =~= reset_reserved(old(self).flags()));
    }

    pub(crate) fn _aborted(&self) -> (r: bool)
        ensures
            r == self.spec_aborted(),
    {
        let _len = self.modifiers_and_enabled_handlers.len();
        self.modifiers_and_enabled_handlers.get(ABORT_BIT)
    }

    /// Appends the enabled bit of a newly added handler.
    pub(crate) fn push_handler(&mut self, enabled: bool)
        requires
            old(self).flags().len() < 0x1000_0000,
        ensures
            final(self).flags() == old(self).flags().push(enabled),
            final(self).mode() == old(self).mode(),
            final(self).oneshot_triggers() == old(self).oneshot_triggers(),
    {
        self.modifiers_and_enabled_handlers.push(enabled);
    }

    /// Records key codes that trigger one shots.
    pub(crate) fn add_oneshot_triggers(&mut self, triggers: &Vec<u32>)
        ensures
            final(self).oneshot_triggers() == old(self).oneshot_triggers() + triggers@,
            final(self).flags() == old(self).flags(),
            final(self).mode() == old(self).mode(),
    {
        let mut i: usize = 0;
        let ghost start = self.oneshot_triggers@;
        while i < triggers.len()
            invariant
                i <= triggers@.len(),
                self.oneshot_triggers@ == start + triggers@.subrange(0, i as int),
                self.flags() == old(self).flags(),
                self.mode() == old(self).mode(),
            decreases triggers@.len() - i,
        {
            self.oneshot_triggers.push(triggers[i]);
            assert(triggers@.subrange(0, i + 1) == triggers@.subrange(0, i as int).push(triggers[i as int]));
            i += 1;
        }
        assert(triggers@.subrange(0, triggers@.len() as int) == triggers@);
    }

    /// The key codes that trigger one shots.
    pub fn oneshot_trigger_list(&self) -> (r: Vec<u32>)
        ensures
            r@ == self.oneshot_triggers(),
    {
        self.oneshot_triggers.clone()
    }

    /// Whether `keycode` triggers a one shot.
    pub fn is_oneshot_trigger(&self, keycode: u32) -> (r: bool)
        ensures
            r == self.oneshot_triggers().contains(keycode),
    {
        let mut i: usize = 0;
        while i < self.oneshot_triggers.len()
            invariant
                i <= self.oneshot_triggers@.len(),
                forall|j: int| 0 <= j < i ==> self.oneshot_triggers@[j] != keycode,
            decreases self.oneshot_triggers@.len() - i,
        {
            if self.oneshot_triggers[i] == keycode {
                return true;
            }
            i += 1;
        }
        false
    }
}


/// Law: what a setter writes into a state bit (set_modifier,
/// enable_handler, disable_handler, set_handler) is read back by the
/// matching getter, and every other bit keeps its value.
pub proof fn law_state_bit_read_after_write(before: KeyboardState, after: KeyboardState, no: int, value: bool)
    requires
        0 <= no < before.flags().len(),
        after.flags() == before.flags().update(no, value),
    ensures
        after.flags()[no] == value,
        after.flags().len() == before.flags().len(),
        forall|i: int| 0 <= i < before.flags().len() && i != no ==> after.flags()[i] == before.flags()[i],
{
}

/// Law: setting a modifier is read back by `modifier`, and leaves the
/// other modifiers, the abort signal and the handler bits alone.
pub proof fn law_modifier_read_after_write(
    before: KeyboardState,
    after: KeyboardState,
    m: Modifier,
    value: bool,
)
    requires
        before.flags().len() >= KEYBOARD_STATE_RESERVED_BITS,
        after.flags() == before.flags().update(m.bit(), value),
    ensures
        after.spec_modifier(m) == value,
        forall|m2: Modifier| m2 != m ==> after.spec_modifier(m2) == before.spec_modifier(m2),
        after.spec_aborted() == before.spec_aborted(),
        forall|i: int|
            KEYBOARD_STATE_RESERVED_BITS <= i < before.flags().len() ==> after.flags()[i] == before.flags()[i],
{
}

/// Law: toggling a handler twice leaves the state as it was.
pub proof fn law_toggle_twice(s0: KeyboardState, s1: KeyboardState, s2: KeyboardState, no: int)
    requires
        0 <= no < s0.flags().len(),
        s1.flags() == s0.flags().update(no, !s0.flags()[no]),
        s2.flags() == s1.flags().update(no, !s1.flags()[no]),
    ensures
        s2.flags() == s0.flags(),
{
    assert(s2.flags() =~= s0.flags());
}

} // verus!
