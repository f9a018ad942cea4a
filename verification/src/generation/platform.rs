//! Target platforms.
pub mod x86_64;
