# Open Mouse Memory

Reads and configures Logitech mice over HID++ 2, on the command line and in a desktop window. Settings are
written to the mouse's onboard memory.

- `src/` is the library: the HID++ exchanges, the onboard memory, profiles, the commands and what is printed of
  them, and the decisions of the desktop application. Its functions carry contracts that Verus proves.
- `tests/` runs the library, among other things against a simulated mouse.
- `app/` is the program around it: `hidapi`, files, the terminal, the window and the tray.

A session with a mouse is described by what was exchanged in it. For each function that talks to a mouse there is
a `.._at` function that reads its result off the recorded exchanges; `src/device/guarantees.rs` states what follows
for a mouse, such as what a write that fails leaves behind.

What the proofs rest on besides Verus: the `hex` crate (`src/hexcode.rs`), `String` of the standard library
(`src/utf8.rs`, `src/text.rs`), its steady clock (`src/hid/clock.rs`), and that a HID node never claims to have read
more bytes than it was given room for (`src/hid/transport.rs`). The record of a session is kept by `Node` there. That
`Node::write` and `Node::read` hand the node what they record, and record what it said, is proved; that each calls it
once and nothing else does is to be read off their bodies.
