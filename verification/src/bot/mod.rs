//! What the bot decides and shows at the poker table.

pub mod buttons;
pub mod cards;
pub mod clicks;
pub mod commands;
pub mod context;
pub mod dedup;
pub mod keywords;
pub mod laws;
pub mod mocks;
pub mod outcome;
pub mod raises;
pub mod shown;
pub mod snapshot;
pub mod tables;
pub mod told;

pub use snapshot::{GameSnapshot, PlayerSnapshot};
