//! Pure parts of the bot's commands.

pub mod guild_config;
pub mod leveling;
pub mod moderation;
pub mod server_qol;
pub mod utils;
