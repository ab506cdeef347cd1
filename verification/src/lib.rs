//! SlotForge core library: save discovery, vault, swap/restore logic.

pub mod api;
pub mod domain;
pub mod platform;
pub mod services;
pub mod shell;
pub mod sorting;
pub mod text;
pub mod time;
pub mod ui;
