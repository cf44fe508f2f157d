# btutils

Two protocols between Bluetooth Low Energy devices:

- a message channel over two GATT characteristics, with an index on every
  message, acknowledgements, and a limit on how long the messages on their way
  may take (`messaging`);
- an exchange by which a client sets the reference time of a server
  (`timing`).

The library in `src/` holds the state and the decisions of both sides: what is
written, what is waited for, and what a value that arrives changes. Verus proves
the contracts of its functions. It takes on trust what `att`, `outside`, `time`,
`messaging::queue` and `messaging` say of the functions of other crates and of
the standard library that they call; the comments there name each. Nothing is
said of the moment at which a clock is read, nor of what other tasks put into a
queue.

`messaging/laws.rs`, `messaging/handover.rs` and `timing/laws.rs` state what
holds of all sides together.

The library reads no socket and does not wait. `app/` does: it drives the
library over BlueZ, with `rustable` and `async-std`.

| module                  | contents                                          |
|-------------------------|---------------------------------------------------|
| `att`, `bytes`          | attribute values and the numbers in them          |
| `time`, `spin`, `link`  | readings of the clock, spinning, failed writes    |
| `future`                | a future that is polled a limited number of times |
| `messaging::frame`      | a message behind its index                        |
| `messaging::inflight`   | the messages that wait for an acknowledgement     |
| `messaging::lat`        | the latencies of the last messages                |
| `messaging::stats`      | the figures of a channel                          |
| `messaging::rendezvous` | a channel without a buffer                        |
| `messaging::handover`   | what becomes of the values sent through it        |
| `messaging::client`     | the client of a message channel                   |
| `messaging::server`     | the server of a message channel                   |
| `timing::client`        | the client of the timing protocol                 |
| `timing::server`        | the server of the timing protocol                 |
