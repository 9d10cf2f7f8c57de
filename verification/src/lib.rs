//! Motif: the verified core of a small LLM agent.
pub mod agent;
pub mod cli;
pub mod error;
pub mod history;
pub mod hooks;
pub mod prompt;
pub mod provider;
pub mod terminal;
pub mod text;
pub mod tool;
pub mod tools;
pub mod tui;
pub mod types;
