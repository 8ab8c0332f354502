//! Deterministic, fixed-point simulation core: a tick-based battle engine with
//! its economy, audit, route-finding and event-tracing collaborators.
//!
//! Every quantity that a game designer would write with a decimal point is
//! held as a signed integer count of millionths ([`fixed::SCALE`] per whole
//! unit), so that every rule has an exact mathematical statement.
pub mod fixed;
pub mod clock;
pub mod combat;
pub mod text;
pub mod observability;
pub mod economy;
pub mod auditor;
pub mod pathfinder;
