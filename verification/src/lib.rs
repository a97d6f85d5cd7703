//! Monitoring core for local LLM agents and inference servers.
pub mod app;
pub mod collector;
pub mod json;
pub mod jump;
pub mod model;
pub mod snapshot;
pub mod text;
pub mod ui;
