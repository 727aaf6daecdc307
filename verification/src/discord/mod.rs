//! Discord-facing rules: splitting, rendering, permissions and forum posts.

pub mod split;
pub mod render;
pub mod present;
pub mod sync;
pub mod forum;
pub mod permission;
pub mod posts;
pub mod threads;
pub mod webhook;
