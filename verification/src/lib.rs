//! Verified core of the EXAMINER launcher and in-game overlay.

pub mod config;
pub mod log;
pub mod path;
pub mod text;

pub mod load_order;
pub mod table;
pub mod encode;
pub mod instance;
pub mod overlay;
pub mod hotkey;
pub mod workspace;
pub mod cli;
