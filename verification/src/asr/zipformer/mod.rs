//! The recognition engine that works on a stream.
pub mod download;
pub mod model;
pub mod provider;
