//! A tool manager for an artifact portal: local install state, dependency
//! planning, integrity checks and the decisions behind each command.
pub mod client;
pub mod commands;
pub mod config;
pub mod error;
pub mod platform;
pub mod state;
pub mod text;
