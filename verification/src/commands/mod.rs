//! What the user interface asks for.
pub mod audio;
pub mod config;
pub mod meeting;
