//! Verified core of a Minecraft connection tunneller: the wire codec of the
//! Minecraft protocol (variable-length integers, big-endian integers,
//! length-prefixed strings and arrays, packet framing), the packet types the
//! tunneller reads and writes, the rewrite of a forwarded handshake address,
//! the public port allocation table and the liveness bookkeeping of tunnels.

pub mod varint;
pub mod ext;
pub mod bigendian;
pub mod protocol;
pub mod ports;
pub mod tunnel;
pub mod plugin;
pub mod forwarding;
