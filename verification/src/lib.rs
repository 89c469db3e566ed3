//! Keccak-f[1600] and the SHA-3 sponge built on it, with machine-checked contracts.

pub mod bits;
pub mod digests;
pub mod keccak;
pub mod laws;
pub mod padding;
pub mod sponge;
pub mod variant;
