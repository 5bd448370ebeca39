//! The logic of the `tutti` command-line client and of its attached terminal
//! interface, without the terminal: what each key does, which requests a
//! gesture sends, how the sidebar, the panes and the popups are laid out, how
//! the configuration file is read, and what every command prints.

pub mod attach;
pub mod cli;
pub mod client;
pub mod config;
pub mod dirs;
pub mod hooks;
pub mod input;
pub mod json;
pub mod key;
pub mod launcher;
pub mod layout;
pub mod model;
pub mod path;
pub mod protocol;
pub mod screen;
pub mod sidebar;
pub mod table;
pub mod text;
