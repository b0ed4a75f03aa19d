//! Verified building blocks of a peer-to-peer transport and of a small
//! e-mail client built on it: a sliding-window bandwidth tracker for UDP
//! packets, the decision logic of the NAT traversal handshake, the
//! fragmentation of outbound streams, and the client's inbox and menu state.

pub mod bw;
pub mod cipher;
pub mod clock;
pub mod handshake;
pub mod inbox;
pub mod menu;
pub mod message;
pub mod stream;
