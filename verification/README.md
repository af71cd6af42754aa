# iot_firmata_bridge

A Firmata server for boards such as the Raspberry Pi or the Nvidia Jetson,
reachable over TCP (port 3030).

- `src/firmata/` — the protocol: constants, the connection error, the decoder
  of the client's byte stream (`parser.rs`), its stream laws (`stream.rs`), the
  steps that carry out a message (`actions.rs`) and the sysex replies
  (`reply.rs`). Its functions carry contracts proved with
  Verus; the one trusted item is the declaration of `std::io::Error`, which a
  connection error carries.
- `src/hardware/` — the board models: capability tables, the virtual board's
  pin state, and the `PinManagerExt` interface of a board driver.
- `app/` — the server: sockets (tokio), the GPIO driver (rppal), printing and
  logging. Run it with the board's name: `mock`, `raspberry` or `jetson`.
