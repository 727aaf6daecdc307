//! Verified core of agentcord: Discord projection and supervision of ACP and
//! herdr agents.

pub mod acp;
pub mod commands;
pub mod config;
pub mod control;
pub mod db;
pub mod discord;
pub mod elicitation;
pub mod error;
pub mod forum;
pub mod herdr;
pub mod ids;
pub mod json;
pub mod laws;
pub mod maps;
pub mod modal;
pub mod numbers;
pub mod paths;
pub mod seqs;
pub mod session;
pub mod settings;
pub mod text;

pub use error::{BotError, BotResult, ModelSpecError};
