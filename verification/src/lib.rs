//! The logic of a tray application that starts, watches, stops and restarts other applications
//! from a menu.
//!
//! The library decides and computes; what it asks for (creating and killing processes, showing
//! the menu, reading files) is carried out by the program around it.

pub mod config;
pub mod icon;
pub mod laws;
pub mod locale;
pub mod menu;
pub mod process;
pub mod shell;
pub mod text;
pub mod tray;
pub mod ui;
