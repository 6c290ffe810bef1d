# mindgate

The verified core of MindGate, a browser protector for Linux: a daemon that
watches the browser extension's heartbeat, closes the browsers when the
extension goes quiet, and refuses to stop while a focus lock is in effect.

- `src/` is the library, verified with Verus: the protocol types (`protocol`),
  lock expiry (`lock`), socket framing (`wire`), request handling and peer
  authorization (`server`), the guardian's per-check decision (`guardian`),
  the logind session-lock state (`session`), the nftables and dnsmasq
  renderers (`engine`), the client's lock gating and reports (`cli`), ANSI
  colouring (`theme`) and decimal/hexadecimal text (`text`).
- `app/` holds the programs around it: the `mindgated` daemon (sockets, D-Bus,
  process control, signals, TOML storage) and the `mindgate` client (clap,
  systemctl, the native-messaging bridge), with serde copies of the protocol
  types.
- `tests/` exercises the library on concrete values.
