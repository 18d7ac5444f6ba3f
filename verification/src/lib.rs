//! Core of an interactive terminal front-end for a version-control working
//! tree: a scoped key-binding resolver, a line-editing input mode, an
//! incremental search engine over streamed content, a viewport controller
//! with a scroll-off margin, and a shell-command template engine.

pub mod action;
pub mod command;
pub mod config;
pub mod dispatch;
pub mod editor;
pub mod errors;
pub mod git;
pub mod keys;
pub mod loader;
pub mod pager;
pub mod search;
pub mod status;
pub mod state;
pub mod text;
pub mod viewport;
