use vstd::prelude::*;

pub mod text;
pub mod draft;
pub mod pattern;
pub mod storage;
pub mod format;
pub mod transcribe;
pub mod settings;
pub mod pipeline;
pub mod overlay;
pub mod recording;
pub mod ollama;
pub mod download;
pub mod vad;
