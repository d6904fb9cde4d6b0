//! Access-controlled record keeping for weight measurements.
//!
//! Users create named batches, add weight measurements to them and grant
//! other principals access to single batches. Every operation first resolves
//! the owner of the record it touches, then asks the sharing store whether
//! the caller may proceed, and only then reads or changes a store.
//!
//! The stores are in `repositories`, behind the capabilities of `traits`;
//! the rules are in `services`; `tracker` holds the whole state and answers
//! the requests of a transport; `laws` states what holds of the rules as a
//! whole.
//!
//! All functions in this crate are verified against the contracts they
//! carry. Two calls leave the crate and are taken on trust: `principal` asks
//! the `candid` crate for the anonymous principal, and `traits` asks the
//! system that runs a canister for the time.

pub mod sequences;
pub mod principal;
pub mod value;
pub mod text;
pub mod errors;
pub mod models;
pub mod traits;
pub mod repositories;
pub mod sharing;
pub mod services;
pub mod tracker;
pub mod laws;
