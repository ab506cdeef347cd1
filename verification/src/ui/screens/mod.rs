//! The state behind each screen.

pub mod about_screen;
pub mod library_screen;
pub mod settings_screen;
pub mod vault_screen;
