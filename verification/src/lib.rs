//! LightCode's core: the text editor, permission policy, @-mentions, file
//! search, diffs, patches and the small text utilities around them.
pub mod text;
pub mod unicode;
pub mod tui;
pub mod permissions;
pub mod mentions;
pub mod diff;
pub mod tools;
pub mod agent;
pub mod cli;
pub mod config;
pub mod goal;
pub mod web;
pub mod files;
pub mod history;
pub mod providers;
pub mod session;
pub mod workspace;
