//! Turn-based connect-four matches on a seven-column, six-row grid, verified with
//! Verus.
//!
//! - `connectfour`: the grid rules.
//! - `board`: a single match and the transitions a move and a forfeit make on it.
//! - `schedule`: the deadlines that the caller arms with its scheduler.
//! - `registry`: the model of the registry, a map from identifiers to matches.
//! - `pallet`: the registry itself and its operations.
//! - `encoding`: the byte encodings and the digest taken from outside crates.
//! - `laws`: what holds of all of the above, whatever the inputs.

pub mod connectfour;
pub mod encoding;
pub mod board;
pub mod schedule;
pub mod registry;
pub mod pallet;
pub mod laws;
