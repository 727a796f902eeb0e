//! The guild data the bot keeps: leveling tables and user time zones.

pub mod leveling;
pub mod timezones;
