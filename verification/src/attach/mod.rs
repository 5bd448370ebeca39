//! The attached client: everything the interface knows and every decision it
//! makes, driven by what the server sends and what the user does. It owns no
//! socket and no terminal, and asks for what it needs of the file system.

pub mod app;
pub mod bars;
pub mod frames;
pub mod geometry;
pub mod grid;
pub mod keys;
pub mod look;
pub mod mouse;
pub mod nav;
pub mod pace;
pub mod panel;
pub mod picker;
pub mod popups;
pub mod prompt;
pub mod render;
pub mod tree;
