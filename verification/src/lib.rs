//! Decisions behind launching a Minecraft instance.

pub mod accounts;
pub mod arguments;
pub mod command;
pub mod environment;
pub mod errors;
pub mod laws;
pub mod logs;
pub mod machine;
pub mod models;
pub mod outcome;
pub mod paths;
pub mod profile;
pub mod provenance;
pub mod rules;
pub mod steps;
pub mod text;
