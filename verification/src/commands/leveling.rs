//! Leveling commands: the leaderboard and the rank card.

pub mod leaderboard;
pub mod rank;
