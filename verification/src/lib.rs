//! Accessible terminal palette core: hex color parsing and formatting,
//! the valid-combination search grid with its scan order, and the binary
//! cache codec that persists search results.

pub mod cache;
pub mod hex;
pub mod search;
pub mod term;
