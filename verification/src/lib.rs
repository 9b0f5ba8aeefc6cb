//! Verification core for a smart-contract bytecode verifier.
//!
//! The crate checks that source code compiled with a requested compiler
//! version produces bytecode matching a contract observed on chain. It
//! covers the matching engine, the compiler version cache with its
//! background refresh bookkeeping, the fetcher strategies that discover
//! compiler binaries, and the validated process settings.

pub mod bytecode;
pub mod cache;
pub mod engine;
pub mod fetcher;
pub mod input;
pub mod raw_bytes;
pub mod settings;
pub mod version;
pub mod vyper;
