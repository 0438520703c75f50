//! The verified core of a terminal workspace.
pub mod connection;
pub mod editor;
pub mod file_panel;
pub mod listing;
pub mod message;
pub mod overlays;
pub mod pane_tree;
pub mod profile;
pub mod secrets;
pub mod session;
pub mod settings;
pub mod settings_dialog;
pub mod shell;
pub mod ssh_event;
pub mod syntax;
pub mod term;
pub mod text;
pub mod ui;
pub mod window;
pub mod workspace;
