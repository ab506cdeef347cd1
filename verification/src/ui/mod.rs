//! What the screens show: sections, theme, and the state of each screen.

pub mod navigation;
pub mod screens;
pub mod theme;
