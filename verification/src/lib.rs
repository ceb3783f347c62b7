//! Access tracking for units of work over a shared, archetype-organised store:
//! access sets, query access expressions, the per-unit state ledger with its
//! conflict check, and the lifecycle of an executable unit.
pub mod access;
pub mod query;
pub mod state;
pub mod commands;
pub mod system;
