//! The first version of the bot's helpers and archiver, kept for callers
//! of that interface: results of regex checks as `Result`, slices of the
//! input for split lines, and archive paths chosen by file type.

pub mod archive;
pub mod module;
