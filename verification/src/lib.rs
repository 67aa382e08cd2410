//! Pluggable cryptographic primitive layer for a TLS handshake: ephemeral
//! key exchange over named groups, streaming hashes, and keyed MACs, with
//! the backend's calls behind narrow, stated contracts.

pub mod enums;
pub mod error;
pub mod hash;
pub mod hmac;
pub mod kx;
