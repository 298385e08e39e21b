//! Scratchpad windows for Wayland compositors.

pub mod backend;
pub mod command;
pub mod config;
pub mod config_error;
pub mod driftwm;
pub mod laws;
pub mod ops;
pub mod outside;
pub mod pad;
pub mod paths;
pub mod positions;
pub mod size;
pub mod text;
pub mod toplevel;
