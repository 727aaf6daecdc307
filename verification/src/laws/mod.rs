//! Laws of the library: relations between what goes into its operations and what
//! comes out of them, stated over all inputs.

pub mod agents;
pub mod choices;
pub mod commands;
pub mod diffs;
pub mod forms;
pub mod forums;
pub mod mirrors;
pub mod models;
pub mod names;
pub mod permissions;
pub mod projections;
pub mod runs;
pub mod settings;
pub mod splits;
pub mod stores;
pub mod texts;
pub mod toolcontent;
pub mod tools;
