//! Parts that belong to one platform.

pub mod junction;
pub mod retention;
pub mod user_path;
pub mod windows_install;
