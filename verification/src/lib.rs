pub mod agent;
pub mod asr;
pub mod commands;
pub mod dictation;
pub mod input_listener;
pub mod json;
pub mod keyboard;
pub mod lists;
pub mod meeting;
pub mod paths;
pub mod recording;
pub mod skill_engine;
pub mod skill_run;
pub mod skills;
pub mod state;
pub mod storage;
pub mod text;
pub mod transcription;
pub mod urls;
pub mod window;
