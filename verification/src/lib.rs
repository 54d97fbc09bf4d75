//! The verified core of tanuki, an agent multiplexer for the terminal.
//!
//! Everything the program decides stands here: naming and sanitizing of staged
//! files, argument handling, the cloud relay's replay and session bookkeeping,
//! frame preparation, the installer's decisions, the settings view. Sockets,
//! files, threads and drawing are left to the program around this library.

pub mod app;
pub mod client;
pub mod noninteractive_process;
pub mod platform;
pub mod protocol;
pub mod remote;
pub mod server;
pub mod string_map;
pub mod terminal_effects;
pub mod text;
pub mod ui;
