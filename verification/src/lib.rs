//! The core of a self-hosted music server: a catalog of songs and their
//! covers, the indexer that fills it from a tree of audio files, the query
//! engine behind the Subsonic API, and what the server answers to each
//! request. All of it works on plain values; reading files, talking to the
//! database and serving HTTP is left to the program around it.

pub mod api;
pub mod config;
pub mod entity;
pub mod frontend;
pub mod indexer;
pub mod options;
pub mod order;
pub mod paths;
pub mod player;
pub mod query;
pub mod subsonic;
pub mod text;
pub mod util;
pub mod walk;

pub use walk::{load, FileVisitor};
