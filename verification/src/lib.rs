//! Least-significant-bit steganography on raw pixel bytes.
//!
//! A payload is hidden one bit per carrier byte: a 32-bit length header in
//! the first 32 bytes, then the payload bits, least significant bit first.
//! The payload may be wrapped in an AES-SIV envelope before it is embedded.

pub mod bits;
pub mod capacity;
pub mod cipher;
pub mod commands;
pub mod envelope;
pub mod header;
pub mod payload;
pub mod steganography;
pub mod text;
