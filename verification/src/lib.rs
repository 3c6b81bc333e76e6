//! Verified core of the Blip capture tools: recording profiles, server URLs,
//! upload planning, command-line grammars and the small rules that decide
//! file names, bitrates and editor presets.

pub mod text;
pub mod urls;
pub mod profiles;
pub mod upload;
pub mod args;
pub mod cli;
pub mod capture_args;
pub mod recording;
pub mod profile_settings;
pub mod naming;
pub mod session;
pub mod bundle;
pub mod commands;
pub mod headless;
pub mod assets;
pub mod open_urls;
pub mod segments;
