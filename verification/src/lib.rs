pub mod text;
pub mod file_entry;
pub mod transfer;
pub mod paths;
pub mod error;
pub mod adb;
pub mod event;
pub mod config;
pub mod cli;
pub mod app;
pub mod input;
pub mod ops;
pub mod list_app;
pub mod ui_text;
