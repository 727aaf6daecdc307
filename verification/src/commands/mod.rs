//! Slash commands: what they offer, accept and answer.

pub mod agent;
pub mod choices;
pub mod harness;
pub mod herdr;
pub mod model;
pub mod session;
pub mod workspace;
