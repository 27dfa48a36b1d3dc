//! The rows of the catalog.

pub mod cover_art;
pub mod song;
