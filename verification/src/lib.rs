//! Library core of a Seedr.cc downloader that files media into a Jellyfin library.

pub mod text;
pub mod paths;
pub mod config;
pub mod downloader;
pub mod gemini;
pub mod history;
pub mod task;
pub mod seedr;
pub mod manager;
pub mod organizer;
pub mod history_cli;
pub mod modal;
pub mod attach;
pub mod history_ui;
pub mod ui;
pub mod worker;
pub mod cli;
