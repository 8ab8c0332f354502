//! Economy: fixed-point resource bookkeeping, trade routes and faction
//! income reports.
pub mod types;
pub mod trade;
pub mod engine;
