//! Core engine of a launcher for a modular game runtime: it models installable
//! versions and their inheritance, evaluates platform rules for libraries,
//! resolves artifact paths, plans downloads against local disk state, and
//! assembles the final launch command line.
pub mod acquire;
pub mod config;
pub mod descriptor;
pub mod directory_manager;
pub mod disk;
pub mod errors;
pub mod fabric;
pub mod installer;
pub mod jdk_manager;
pub mod jsonval;
pub mod launch;
pub mod manifest;
pub mod mods;
pub mod platform;
pub mod rules;
pub mod text;
pub mod utils;
pub mod version;
