//! The key handler of each mode.

pub mod command;
pub mod help;
pub mod normal;
pub mod search;
pub mod visual;
