//! The Steam-inspired redesign shell: its session state and the pure parts of its views.
pub mod state;
pub mod tokens;
pub mod library;
pub mod library_table;
pub mod detail;
pub mod settings;
pub mod shell;
