//! Ultimate Finance core: deterministic planning math and the household ledger.
//!
//! The crate holds the logic of the finance service: a seeded PRNG and loan
//! amortization for the planning engine, and the in-memory ledger store with
//! its authorization, validation and bank-aggregation rules.

pub mod aggregate;
pub mod amortize;
pub mod auth;
pub mod dates;
pub mod error;
pub mod ids;
pub mod models;
pub mod planning;
pub mod rng;
pub mod seed;
pub mod service;
pub mod sorted;
pub mod store;
pub mod store_laws;
pub mod sync;
pub mod table;
pub mod text;
