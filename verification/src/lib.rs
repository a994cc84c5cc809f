//! A thin library around a local text-generation executable.
//!
//! The library locates a model file by name, assembles the command-line
//! flags for one invocation, and interprets the outcome of the spawned
//! process: exit-status checking, UTF-8 decoding, and cleanup of the
//! echoed prompt and control artifacts in the captured output.
//! Process spawning itself and all file and terminal I/O live outside
//! the library; they hand in plain values and take plain values back.

pub mod clean;
pub mod cli;
pub mod config;
pub mod error;
pub mod llm;
pub mod text;

pub use config::{discover_models, resolve_model_path, AgentConfig};
pub use error::LlmError;
pub use llm::open;
