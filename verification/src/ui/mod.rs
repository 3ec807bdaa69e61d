//! The decisions behind the application's screens.

pub mod main_window;
pub mod table_view;
