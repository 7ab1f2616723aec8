//! Allocation and pricing engine of a fixed-size collection sale.
//!
//! The engine hands out the identifiers of a pool one by one and at random,
//! prices every unit along a supply-dependent curve, gates buyers through the
//! phases of a sale, and keeps the books of prepaid balances.

pub mod account;
pub mod assoc;
pub mod contract;
pub mod error;
pub mod laws;
pub mod linkdrop;
pub mod metadata;
pub mod model;
pub mod owner;
pub mod pricing;
pub mod raffle;
pub mod sale;
pub mod snapshot;
pub mod token;
pub mod user;
pub mod views;
