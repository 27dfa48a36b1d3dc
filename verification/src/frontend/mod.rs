//! What the browser client computes: how a song is shown, which page of a
//! search it asks for, and what a key press leads to.

pub mod globals;
pub mod model;
pub mod udrome;
