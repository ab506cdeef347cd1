//! The library's rules: configuration, ignore list, discovery, manual library,
//! integrity, metrics, swap and vault.

pub mod audit_service;
pub mod blacklist_service;
pub mod config_service;
pub mod discovery_service;
pub mod library_service;
pub mod metadata_service;
pub mod metrics_service;
pub mod swap_service;
pub mod vault_service;
