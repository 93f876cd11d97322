//! Doomsday goldfish: the mulligan rules, the learned-policy bookkeeping, the
//! sample decklists and the per-game tallies of the goldfish simulator.

pub mod count;
pub mod names;
pub mod mull;
pub mod learned;
pub mod random;
pub mod goldfish;
pub mod dataset;
pub mod stats;
