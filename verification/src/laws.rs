//! What the operations promise, stated over what goes into a call and what comes out of it.

pub mod checkpoints;
pub mod commands;
pub mod display;
pub mod listing;
pub mod messages;
pub mod names;
pub mod policies;
pub mod protocol;
pub mod removal;
pub mod setup;
pub mod snapshots;
pub mod values;
pub mod workspaces;
