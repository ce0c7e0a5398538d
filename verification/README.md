# tapo-proto

Local, cloud-free control of TP-Link Tapo smart bulbs, written in Verus.

- `src/` is the verified library: KLAP v2 credential hashing, handshake checks,
  session derivation and the signed AES-128-CBC request channel (`klap`); the
  legacy secure-passthrough session (`passthrough`); HTTP response framing and
  request heads (`http`); device request parameters and replies (`device`);
  configuration rules (`config`); the animation driver and retry policy
  (`service`); reachability diagnosis (`diagnose`); discovery filtering and
  ordering (`discover`); frame colour averaging (`ambilight`). Hashes, AES,
  Base64, RSA and UTF-8 decoding are calls into the usual crates, behind the
  trusted items of `crypto` and `text`.
- `tests/` runs the library against the real crates.
- `app/` is the command-line program around it: sockets, timers, files,
  the HTTP control API and the floating-point colour conversions.
