//! Verified core logic of the Glues note-taking tools: the proxy server's
//! access guard, the GUI workspace model and settings, and the terminal
//! front end's input handling.
use vstd::prelude::*;

pub mod data;
pub mod text;
pub mod ids;
pub mod proxy;
pub mod access;
pub mod loader;
pub mod server;
pub mod tree;
pub mod workspace;
pub mod settings;
pub mod gui;
pub mod tui;
pub mod mcp;

verus! {

} // verus!
