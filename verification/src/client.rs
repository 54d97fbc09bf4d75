//! The client side.

pub mod send;
