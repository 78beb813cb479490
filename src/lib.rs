//! Bridges a host's package provider to a conflict-driven version solver:
//! version-range algebra built from specifier clauses, a per-session cache of
//! available versions, the decisions the solver asks of its provider, and the
//! classification of every way a resolution can fail.
pub mod cache;
pub mod dependencies;
pub mod error;
pub mod provider;
pub mod range;
pub mod resolve;
pub mod select;
pub mod specifier;
pub mod version;
