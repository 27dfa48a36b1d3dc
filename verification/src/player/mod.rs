//! The parts of the terminal player that decide: what a key does, where a
//! seek lands, what a remote file hands out.

pub mod app;
pub mod http;
pub mod playlist;
