//! The gateway's service: its settings, its local transport and what runs beside it.

pub mod cache_publication;
pub mod config;
pub mod config_reload;
pub mod daemon_services;
pub mod ipc;
pub mod metrics;
pub mod session_builder;
pub mod singleton_ownership;
