# iced_servo

Web views for iced applications, with the decisions they take proved
correct by Verus.

- `src/` is the verified library: HTML and CSS scanning for stylesheets and
  `@import` rules, URL resolution and link handling (through the `url`
  crate), HTML escaping, pixel conversion, the view bookkeeping of the basic
  and advanced widgets, the image-fetch epochs, the stylesheet cache of the
  litehtml container, keyboard and cursor mapping. `src/laws.rs` states the
  properties that span several operations.
- `tests/` runs the library on concrete values.
- `app/` wires the library to iced, the litehtml rendering engine and the
  network (reqwest). The Servo engine's source sits in
  `app/engines/servo.rs`, but it is not compiled: the `servo` crate is not
  a dependency, so no feature enables it.

Verify with `verus`, on `src/lib.rs`, with the outside crates of
`Cargo.toml` on the library path.
