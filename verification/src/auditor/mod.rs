//! Auditor: validation findings, the rules that produce them and the
//! schedule on which audits run.
pub mod types;
pub mod scheduler;
pub mod json;
pub mod registry;
pub mod rules;
pub mod consistency;
pub mod engine;
