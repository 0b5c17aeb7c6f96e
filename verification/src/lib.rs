//! Myo's agent core: the logic of a voice-first local companion — the
//! server-sent-events decoder and event normalizer, the brain's wire
//! protocol, the capability toggles and tool kit, the tool-call assembly of a
//! streamed chat and the native turn loop, working memory, dream mode and
//! memory capture, engine launch recipes, and the self-updater's versioning,
//! release selection and integrity checks. Network, files and processes stay
//! with the caller, which hands these functions what it read.

pub mod text;
pub mod sse;
pub mod json;
pub mod event;
pub mod capabilities;
pub mod engine;
pub mod supervisor;
pub mod update;
pub mod time;
pub mod tools;
pub mod llm;
pub mod memory;
pub mod config;
pub mod converse;
pub mod speech;
pub mod brain;
pub mod paths;
pub mod cli;
pub mod shell;
pub mod progress;
