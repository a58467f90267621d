//! A keystroke-driven todo list for the terminal: the record format, the
//! todo store with its selection cursor, the tab bar, the styled text
//! renderer, and the decisions of the key loop, each with its contract.
use vstd::prelude::*;

pub mod app;
pub mod config;
pub mod done;
pub mod menu;
pub mod selection;
pub mod store;
pub mod terminal;
pub mod text;
pub mod timestamp;
pub mod todo;
