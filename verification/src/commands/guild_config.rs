//! Per-guild configuration commands.

pub mod config;
