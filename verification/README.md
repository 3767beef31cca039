# httpget

A small HTTP GET client whose logic is verified with Verus.

- `src/base64.rs` (with `spec`, `lemmas`, `laws`): Base64 encoding and strict
  decoding against a mathematical specification, with the round-trip,
  concatenation and bit-level laws.
- `src/help.rs`, `src/help/get.rs`: reading the command line into `Settings`,
  stated as a function over the arguments; the getters; `help/laws.rs`:
  what holds of every command line read.
- `src/request.rs`: the port defaults and the plan of a request.
- `src/tcpip.rs`: Basic authorization and the request text.
- `src/text.rs`: text helpers.
- `app/main.rs`: the program: arguments, printing, sockets.
