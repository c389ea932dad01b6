//! Verified core of a terminal mail and calendar client.

pub mod app;
pub mod cli;
pub mod config;
pub mod control;
pub mod datetime;
pub mod json;
pub mod laws;
pub mod mcp;
pub mod model;
pub mod paths;
pub mod skill;
pub mod text;
pub mod ui;
