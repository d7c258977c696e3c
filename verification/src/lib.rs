//! The decisions of a tray application that keeps one child process running.

pub mod command;
pub mod config;
pub mod config_laws;
pub mod encoding;
pub mod external;
pub mod icon;
pub mod install;
pub mod locate;
pub mod locate_laws;
pub mod manager;
pub mod manager_laws;
pub mod path;
pub mod setup;
pub mod text;
pub mod tray;
