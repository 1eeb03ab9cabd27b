//! Canonical liquidity-pool state derivation for a CRDT-backed key/value
//! store.
//!
//! Raw transaction outputs are classified into pool shapes (single-asset or
//! dual-asset), a canonical `(key, member)` pair is derived for each
//! recognized pool position, and per-block diffing turns consumed outputs
//! into `SetRemove` commands and produced outputs into `SetAdd` commands,
//! removes first within each transaction.

pub mod classify;
pub mod commands;
pub mod config;
pub mod decimal;
pub mod laws;
pub mod model;
pub mod order;
pub mod reducer;
pub mod resolver;

pub use commands::CRDTCommand;
pub use config::{Config, ResolutionPolicy};
pub use decimal::u64_to_string;
pub use reducer::{ReduceError, Reducer};
