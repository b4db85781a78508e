//! Non-cryptographic hash algorithms (FNV-1 and FNV-1a, xxHash64, SpookyHash v1
//! and v2) behind a hashing abstraction that is generic over the digest type.
//!
//! Every engine is a streaming state machine: bytes may be written in chunks of
//! any size, and the digest depends only on the seed and on the concatenation
//! of what was written.

pub mod bytes;
pub mod endian;
pub mod fnv;
pub mod hasher;
pub mod laws;
pub mod spooky;
pub mod wide;
pub mod xxh64;

/// The integer types that FNV runs on.
pub use fnv::Type as FnvConfig;
