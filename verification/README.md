# rtc_conformance

The verified core of a conformance suite for WebRTC data channels: the test corpus and
its case bodies, the peers that run them, the orchestrators that pair peers up, and the
matrix that classifies what they report against each target's declared policy.

- `src/` is the library. Every function states its behaviour in `requires` and `ensures`,
  proved by Verus, but for ten small wrappers in `text`, `json` and `document`: each makes
  one call into std, `serde_json` or `toml`, and its contract is believed as its doc comment
  states it. The properties that span functions are public proof functions, next to the
  functions they speak of.
- `tests/` runs the library on concrete values, against the `serde_json` and `toml` crates
  that it reads and writes its documents with.
- `app/` is the command-line program: processes, sockets, files and the native WebRTC
  stack. It performs the calls the library asks for and hands the replies back.

The case bodies (`solo`, `exchange`), the handshakes (`handshake`, `rendezvous`) and the
reference peer (`reference`) are state machines: each says which call comes next and
judges its reply, and leaves the call itself to its driver.
