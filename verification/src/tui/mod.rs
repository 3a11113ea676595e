//! The interactive two-column interface: its row models, its state and the
//! key handling that drives it, and the text of what it draws.
pub mod app;
pub mod data;
pub mod events;
pub mod preview;
pub mod view;
