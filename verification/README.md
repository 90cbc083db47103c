# keytokey

A library for building keyboard firmwares, verified with Verus.

A keyboard firmware reads key presses, translates them, and sends the
results to a computer. keytokey does the translation: it takes a stream of
events (key presses, releases and timeouts) and runs them through a list of
handlers, which turn them into USB keyboard reports.

Key codes are `u32`s standing for unicode code points; the USB key codes
live in the first private area of unicode (from `0x100000`), and the user
keys `UK0..UK99` in another private range (`0xF0100..`).

## Layout

- `src/key_codes.rs`: `KeyCode`, `UserKey` and the classification of raw key codes.
- `src/key_stream.rs`: the events and their status.
- `src/state.rs`: the keyboard state (modifiers, abort signal, one enabled bit
  per handler, unicode mode), kept in a `SmallBitVec`.
- `src/output.rs`: `KeyOutCatcher`, the reports the handlers produce, and how
  unicode characters and strings are typed in each unicode mode.
- `src/keyboard.rs`: `Keyboard`: the event queue and the handler pipeline.
- `src/handlers/`: the handlers (USB keyboard, unicode keyboard, layers,
  macros, one shots, space cadets, tap dances, long taps, sequences, leaders,
  auto shift, translation helper), each with a contract that states what it
  does to the events, to its own state, to its callbacks and to the output.
- `src/premade.rs`: ready-made handlers and actions (dvorak, one shot
  modifiers, toggles, copy/paste, abort).
- `src/matrix.rs`: turning a key matrix state into events.
- `src/test_helpers.rs`: handlers and callbacks that help testing.
- `app/`: the hardware side (handing reports and debug messages to USB) and
  a handler that hands the lines of `debug_stream_lines` to a writer.
- `tests/`: scenario tests.

The `law_*` proof functions state the properties that hold across calls
(for example that USBKeyboard reports every held key, that a key rewritten
by one layer is not rewritten again, or that a one shot modifies exactly the
next key).
