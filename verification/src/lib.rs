//! An identity and attestation registry: profiles, linked identifiers, claims
//! with an approval lifecycle, and a reputation score derived from them.

pub mod auth;
pub mod contract;
pub mod errors;
pub mod events;
pub mod history;
pub mod laws;
pub mod reputation;
pub mod storage;
pub mod store;
pub mod types;
