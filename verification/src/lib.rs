//! Verified core of the SayKOCraft launcher.
pub mod auth;
pub mod commands;
pub mod config;
pub mod http;
pub mod instance;
pub mod json;
pub mod minecraft;
pub mod profile_icon;
pub mod text;
pub mod utils;
