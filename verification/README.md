# jx_keymapper

The verified core of the JX key mapper client (a keyboard/mouse mapper for
Android devices projected over USB ADB). The library under `src/` is written
in Verus; every function carries a contract that Verus proves, except for
nine small trusted items whose contracts are believed, not proved: the
wrappers around `Instant::elapsed`, `Duration::as_millis`,
`String::from_iter`, `String::from_utf8_lossy`, `String::from_utf16_lossy`,
`str::to_lowercase`, `blake3::hash` and `rand::random`, and the declaration
of `std::time::Instant`. The decoded text, the lower-cased text and the
BLAKE3 digest are named rather than defined.

- `membership` — the membership session: when the client counts as an active
  member, login / redeem / heartbeat / logout, how gateway replies are judged,
  which local API routes need a membership, and which projections are shut
  down while membership is missing.
- `fingerprint` — the device id sent to the membership gateway: the machine
  GUID and MAC addresses parsed from command output, lower-cased, joined and
  hashed with BLAKE3.
- `settings` — the settings page: how each setting button cycles its value,
  the status line it shows, and the text of each value.
- `mapping` — mapping editor helpers: pointer ids, random offset algorithm
  cycle, button labels, mapping file names, property panel and key capture
  decisions, and the advanced editor's key handling.
- `editor` — the mapping editor's state machine, over a document held as
  its list of buttons and the rest: which button each edit replaces,
  removes or appends.
- `dashboard` — the device page: device list, busy flag, status lines.
- `window` — the projection window: toolbar commands, title bar buttons,
  button shades, resize handles.
- `control` — the device's control channel as the library sees it: every
  message handed to it is logged with its answer, so the toolbar's key
  presses and display power commands state exactly what they send.
- `startup` — instance detection, local port selection, and the management
  web view's address and size.
- `text` — character-level helpers shared by the others.

`app/` holds the process around the library: sockets, child processes, file
access, the HTTP client and server, and the floating-point work on JSON
mapping documents. It has no user interface: the window toolkit, video
decoding and the mapping engine's configuration are not part of it.
`tests/` runs the library on concrete values.
