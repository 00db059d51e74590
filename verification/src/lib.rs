//! Verified core of a terminal project runner.
pub mod config;
pub mod detect;
pub mod engine;
pub mod filebrowser;
pub mod header;
pub mod json;
pub mod langscan;
pub mod menus;
pub mod paths;
pub mod pattern;
pub mod ports;
pub mod project_creator;
pub mod setup;
pub mod text;
pub mod ui;
pub mod vars;
pub mod wizard;
