# fe2o3_steel

The admin dashboard and operator logic of the Steel server, verified with
Verus.

- `src/` is the library: the dashboard's routing, request heads, paths
  under the public directory, sessions, pages and JSON feeds, the traffic
  recorder, the address guard view, the alerting state machines, HTTP
  caching rules, TLS certificate selection, mail recipient handling, the
  civil calendar of mail dates, and the shell's decisions. Verus proves
  each function against its contract, except the few
  `#[verifier::external_body]` wrappers round std and `rustls-pemfile`
  calls (the clock, UTF-8 decoding, pushing a character, lowercasing, PEM
  reading), whose contracts are trusted and say in their doc comments what
  they claim. Laws that relate several functions are public proof
  functions (`lemma_*`).
- `tests/` runs the library on concrete values.
- `app/` is the `steel` operator shell and the loopback dashboard listener:
  terminal and socket I/O, the clock, the audit log file, and the few
  figures that are floating point.

Verify with `verus` on `src/lib.rs` as a library crate.
