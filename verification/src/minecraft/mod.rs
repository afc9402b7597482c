//! Installing and launching Minecraft for an instance.
pub mod console;
pub mod error;
pub mod install;
pub mod java;
pub mod launch;
pub mod neoforge;
pub mod paths;
pub mod platform;
pub mod progress;
pub mod session_bridge;
