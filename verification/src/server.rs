//! The server: what its clients send it, and what it renders for them.

pub mod clipboard_image;
pub mod render_stream;
