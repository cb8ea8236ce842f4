//! Checkpoint bookkeeping for copy-on-write workspaces.
#![allow(unused_imports)]

pub mod calendar;
pub mod checkpoint;
pub mod cli;
pub mod config;
pub mod dash;
pub mod digest;
pub mod dispatch;
pub mod frame;
pub mod guarded;
pub mod ids;
pub mod index;
pub mod init;
pub mod json;
pub mod laws;
pub mod lifecycle;
pub mod lineage;
pub mod listing;
pub mod lookup;
pub mod message;
pub mod ops_log;
pub mod overrides;
pub mod pages;
pub mod paths;
pub mod policy;
pub mod prune;
pub mod recovery;
pub mod registry;
pub mod removal;
pub mod render;
pub mod restore;
pub mod retention;
pub mod settings;
pub mod snapshot;
pub mod state;
pub mod string_map;
pub mod text;
pub mod text_list;
pub mod traversal;
pub mod wire;
