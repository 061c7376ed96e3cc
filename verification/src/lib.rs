//! Verified core of Lethe.
pub mod actor;
pub mod clock;
pub mod config;
pub mod interfaces;
pub mod json;
pub mod order;
pub mod scheduler;
pub mod text;
pub mod tools;
pub mod tui;
pub mod view_laws;
