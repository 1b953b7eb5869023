//! Data model and display logic for a compact usage widget that shows
//! Codex rate-limit windows, token usage and cost figures.

pub mod text;
pub mod api;
pub mod models;
pub mod usage;
pub mod fetcher;
pub mod bridge;
pub mod clock;
pub mod countdown;
pub mod text16;
pub mod theme;
pub mod config;
pub mod costs;
