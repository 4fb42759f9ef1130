//! Extraction of speedrun records from the free-text reports of a leaderboard site.
pub mod calendar;
pub mod duration;
pub mod error;
pub mod laws;
pub mod record;
pub mod text;
pub mod vocab;
