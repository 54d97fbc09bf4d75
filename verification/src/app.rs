//! The application.

pub mod config_io;
