//! Logic of the jUtils Discord bot: leveling, anti-spam, help pages,
//! moderation decisions and the text formats the bot produces.

pub mod commands;
pub mod config;
pub mod database;
pub mod error;
pub mod events;
pub mod send;
pub mod text;
pub mod types;
pub mod utils;
