//! Approximate, human-readable rendering of a remaining time given in whole
//! seconds: the count is reduced to the largest unit that fits at least once
//! and written with that unit's name.

pub mod decimal;
pub mod eta;
pub mod unit;

pub use eta::format_eta;
