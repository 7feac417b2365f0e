//! Duplicate-file detection library.
//!
//! The library fingerprints byte streams (size and 128-bit MD5 digest,
//! computed incrementally under bounded memory), keeps an append-only
//! index of file records, and groups the records that share a digest.
//! Rendering helpers produce the decimal, hexadecimal and human-readable
//! texts that reports and exports are built from.
//!
//! All file, terminal and database traffic lives outside the library:
//! callers feed it plain values (paths, byte chunks, sizes) and receive
//! plain values back.

pub mod export;
pub mod hashing;
pub mod index;
pub mod pathname;
pub mod render;
