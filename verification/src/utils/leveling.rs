//! Support for the leveling system.

pub mod animation_utils;
pub mod anti_spam;
pub mod dynamic_image_utils;
pub mod event_handler;
