//! Workspace launch planning, window matching and layout geometry.

pub mod text;
pub mod args;
pub mod error;
pub mod models;
pub mod pattern;
pub mod coords;
pub mod matching;
pub mod paths;
pub mod processes;
pub mod numbers;
pub mod settings;
pub mod sorting;
pub mod capture;
pub mod discovery;
pub mod windows;
pub mod ids;
pub mod store;
pub mod import_export;
pub mod launcher;
pub mod session_launch;
pub mod commands;
pub mod sessions;
pub mod monitors;
