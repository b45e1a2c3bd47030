//! A read-only, keyboard-driven text viewer engine: document composition,
//! cursor and viewport arithmetic, word and paragraph motion, literal search,
//! selection ranges and command templates.

pub mod classify;
pub mod commands;
pub mod document;
pub mod highlight;
pub mod keymaps;
pub mod selection;
pub mod template;
pub mod viewer;
