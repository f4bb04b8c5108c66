//! Pianzo: notes-to-keystrokes player — the verified core.
pub mod text;
pub mod parser;
pub mod importer;
pub mod processes;
pub mod notifications;
pub mod hotkeys;
pub mod storage;
pub mod player;
pub mod audio;
pub mod updater;
pub mod general;
pub mod app;
pub mod control;
pub mod karaoke;
pub mod view;
