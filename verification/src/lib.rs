//! Verified core of iOS-Runner: the decisions and text handling behind building
//! and running Xcode projects from Zed.
pub mod text;
pub mod locale;
pub mod destination;
pub mod simulator;
pub mod paths;
pub mod config;
pub mod global_store;
pub mod bootstrap;
pub mod tasks;
pub mod detect;
pub mod diagnostics;
pub mod platform;
pub mod xcodebuild;
pub mod build_settings;
pub mod prompt;
pub mod keymap;
pub mod global_tasks;
pub mod terminal_ui;
pub mod uninstall;
pub mod setup;
pub mod doctor;
pub mod mcp;
pub mod extension;
pub mod run;
