# tunneller

The verified core of a Minecraft connection tunneller, written in Verus.

- `src/varint.rs`: the VarInt format (encoding, decoding, sizes) and its round-trip proof.
- `src/bigendian.rs`: big-endian integers through the `byteorder` crate.
- `src/ext.rs`: a byte cursor, reading and writing VarInts and length-prefixed
  payloads, and the framing of packets (length, id, data).
- `src/protocol/`: the `PacketData` codec with a round-trip lemma for every field
  type and packet, the connection `State`, and the packets of the handshake,
  status, login and play phases.
- `src/forwarding.rs`: splitting and rebuilding the NUL-separated address of a
  forwarded handshake, and adding the realm to its profile properties through
  `serde_json`.
- `src/ports.rs`: the public port table and the registry of tunnels.
- `src/tunnel.rs`, `src/plugin.rs`: tunnel records and the liveness check.
- `app/`: the service itself (HTTP endpoint, broker subscriptions, tunnel
  listeners, async stream reading and writing) on top of the library.
- `tests/`: executable tests of the library.
