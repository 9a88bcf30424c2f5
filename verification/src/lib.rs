//! Verified core of the RestaAPP print agent.
pub mod text;
pub mod models;
pub mod polling;
pub mod scripts;
pub mod printers;
pub mod secure;
pub mod config;
pub mod api;
