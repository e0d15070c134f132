//! Meetings: long recordings that are recognised while they go on.
pub mod audio;
pub mod llm;
pub mod loopback;
pub mod pipeline;
pub mod session;
