//! The instance configuration, read from `.cfg/CONFIG.toml` at start.

use vstd::prelude::*;

verus! {

#[derive(Debug, Clone)]
pub struct DiscordBotConfig {
    pub token: String,
    pub prefix: String,
}

#[derive(Debug, Clone)]
pub struct FontConfig {
    pub inter: String,
    pub inter_semibold: String,
}

#[derive(Debug, Clone)]
pub struct DatabaseConfig {
    pub connection_string: String,
    pub db: String,
}

#[derive(Debug, Clone)]
pub struct GitHubConfig {
    pub token: String,
}

#[derive(Debug, Clone)]
pub struct RocScamIndexConfig {
    pub url: String,
}

#[derive(Debug, Clone)]
pub struct MOTDConfig {
    pub motd_timeout: u64,
    pub include_help_prefix: bool,
    pub motd_strings: Vec<String>,
}

#[derive(Debug, Clone)]
pub struct AboutConfig {
    pub bot_hoster: u64,
    pub description: String,
    pub color: [u8; 3],
}

#[derive(Debug, Clone)]
pub struct JUtilsConfig {
    pub modified: bool,
}

#[derive(Debug, Clone)]
pub struct ColorsConfig {
    pub primary: [u8; 3],
    pub secondary: [u8; 3],
    pub success: [u8; 3],
    pub error: [u8; 3],
    pub invis: [u8; 3],
}

#[derive(Debug, Clone)]
pub struct EmojiConfig {
    pub check_box: String,
    pub cross_box: String,
}

#[derive(Debug, Clone)]
pub struct LevelingCardConfig {
    /// When to allow animated leveling cards.
    /// Enabling this can be computationally expensive.
    pub allow_animated: bool,
    /// Users to only render animated cards on; left empty (or omitted), every
    /// member gets them.
    pub allowed_users_animated: Vec<String>,
}

/// The jUtils configuration system.
///
/// Provides the configs for things that the instance owner
/// should only configure. All of these requires a bot restart.
#[derive(Debug, Clone)]
pub struct Config {
    pub discordbot: DiscordBotConfig,
    pub database: DatabaseConfig,
    pub font: FontConfig,
    pub github: GitHubConfig,
    pub rsi: RocScamIndexConfig,
    pub motd: MOTDConfig,
    pub about: AboutConfig,
    pub jutils: JUtilsConfig,
    pub colors: ColorsConfig,
    pub emoji: EmojiConfig,
    pub lvlcard: LevelingCardConfig,
}

} // verus!
