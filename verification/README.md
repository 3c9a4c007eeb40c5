# wie

Verified models of the logic of WIE, an emulator for feature-phone (WIPI
and MIDP) applications, written in Verus. Every public function carries a
contract over a mathematical view of its type, and Verus proves the code
against it.

## Layout

- `src/memory.rs`: guest-memory words, null-terminated strings and tables,
  and the messages of the core's errors.
- `src/font.rs`: text wrapping and measuring.
- `src/event_queue.rs`: the events between backend and application, and
  how they are dispatched.
- `src/item.rs`, `src/string_item.rs`, `src/image_item.rs`, `src/gauge.rs`:
  the items of a form, their sizes, commands and owners.
- `src/choice_group.rs`, `src/choice_layout.rs`: selection, highlight and
  popup of a choice group, and its rows.
- `src/form.rs`: the items of a form, focus, scrolling and layout.
- `src/displayable.rs`, `src/alert.rs`, `src/ticker.rs`, `src/display.rs`:
  screens, alerts, tickers, the display's bands, transitions and timers.
- `src/command.rs`, `src/events.rs`, `src/media.rs`, `src/database.rs`,
  `src/graphics_context.rs`: commands, listener events, players, record
  store errors and graphics context numbers.
- `src/web.rs`, `src/key_repeat.rs`: the web frontend's decisions on
  imported files, vibration, and key repeat (held keys are kept in a
  `hashbrown` map).

`tests/` runs the library on concrete values.
