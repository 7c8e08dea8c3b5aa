//! Keeps a presence display in step with what a local media player is playing.

pub mod activity;
pub mod cache;
pub mod clock;
pub mod config;
pub mod connection;
pub mod lookup;
pub mod sync;
pub mod text;
pub mod track;
