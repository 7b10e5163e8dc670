//! Provisioning and benchmarking of a game server, as verified decisions.
//!
//! The library decides what to install and in which order, where things
//! live on disk, how the server is launched, which plugins are missing, how
//! the server's console is read and how its rates become a score. Whoever
//! embeds it performs the downloads, file writes and process launches that
//! these decisions describe.

pub mod archive;
pub mod average;
pub mod benchmark;
pub mod console;
pub mod coordinator;
pub mod decimal;
pub mod error;
pub mod json;
pub mod license;
pub mod paths;
pub mod plugins;
pub mod runtime;
pub mod text;
pub mod versions;
