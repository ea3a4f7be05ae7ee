# kdeconnect

The logic of a KDE Connect desktop: pairing and the identity of devices, the
packets of the plugins, payloads and downloads, media players, text messages and
contacts, mounted shares, and the state of the applet, the settings and the SMS
window. What the public functions return and change is stated in contracts that
Verus proves; small private helpers may go without one.

- `src/` is the library. The modules build on each other in the order in which
  `src/lib.rs` names them, from text and tables up to the windows. Decisions that
  depend on the outside (a file, a socket, the bus, the clock) are functions that
  take what the outside has answered and say what is to be done next.
- `app/` is the service around it: sockets, TLS, the session bus, files and
  programs.
- `tests/` runs the library.

The wrappers around outside functions are not proved but believed. They stand in
`src/text.rs`, `src/encode.rs` and `src/json.rs`, where the library calls into
`std`, `base64`, `percent-encoding`, `uuid` and `serde_json`; a comment above each
says what is claimed of it.
