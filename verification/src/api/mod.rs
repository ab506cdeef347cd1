//! What the desktop shell receives: data transfer values, the last-swap
//! session, and the decisions behind each command.

pub mod commands;
pub mod dto;
pub mod error;
pub mod swap_session;
