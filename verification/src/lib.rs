//! Wire protocol core of a game lobby server: the Brokefish block cipher,
//! the packet container codec, key derivation for the encryption handshake
//! and the per-connection session logic.

pub mod bytes;
pub mod consts;
pub mod brokefish;
pub mod packets;
pub mod ipc;
pub mod keys;
pub mod client;
