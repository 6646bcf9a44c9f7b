//! A local music library: the rules behind the `mu` command line player.
pub mod text;
pub mod player;
pub mod downloader;
pub mod error;
pub mod music;
pub mod playlist;
pub mod podcast;
pub mod daemon;
pub mod commands;
pub mod library;
pub mod upkeep;
