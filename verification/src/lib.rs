//! Reconciliation of a seasonal catalog-A listing against a community
//! catalog B: classification of each entry through a cascade of matching
//! strategies, and an append-friendly merge that never discards a prior
//! confirmation.

pub mod bgmtv;
pub mod codec;
pub mod ds;
pub mod engine;
pub mod laws;
pub mod mal;
pub mod model;
pub mod text;
