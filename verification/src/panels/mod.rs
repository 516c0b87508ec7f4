//! Pure parts of the main panels of the legacy shell.
pub mod sidebar;
pub mod software_list_panel;
pub mod game_list;
pub mod game_index_manager;
pub mod game_list_view;
pub mod artwork_loader;
pub mod image_data;
pub mod icon_manager;
pub mod performance_manager;
