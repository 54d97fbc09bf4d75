//! What the user interface shows.

pub mod settings;
