//! A line-oriented literal text search library: per-line match decisions
//! (case sensitivity, inversion), occurrence highlighting, and output
//! record formatting, all with verified contracts.

pub mod config;
pub mod fold;
pub mod format;
pub mod highlight;
pub mod matcher;
pub mod search;
pub mod style;
pub mod text;

pub use config::Config;
