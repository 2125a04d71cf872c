# tcp_packet

Packets for a small TCP client and server, and the decisions that both sides
make about them, verified with Verus.

- `src/wire.rs`: Protocol Buffers varints, field keys and field payloads, with
  the `prost` primitives behind trusted wrappers.
- `src/packet.rs`, `src/ping.rs`, `src/authenticate.rs`: the messages, their
  wire forms and decoders; `packet_roundtrip` and `ping_roundtrip` prove that
  decoding gives back what was encoded.
- `src/framing.rs`: one packet per `\r\n`-terminated line.
- `src/client/`: the client's connection as a state machine.
- `src/server/`: client bookkeeping, line handling, message routing and the
  server's answers.
- `app/`: the tokio program that performs the I/O around the library.
