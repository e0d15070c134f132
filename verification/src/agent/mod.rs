//! The agent: a language model that works on a task with tools.
pub mod context;
pub mod error;
pub mod event;
pub mod history;
pub mod message;
pub mod provider;
pub mod request;
pub mod run;
pub mod session;
pub mod tool;
pub mod usage;
