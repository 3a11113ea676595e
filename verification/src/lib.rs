//! Metadata and cover-art assignment for music libraries.
pub mod art;
pub mod cli;
pub mod dump;
pub mod format;
pub mod meta;
pub mod path;
pub mod scan;
pub mod text;
pub mod tui;
