//! Minecraft Bedrock debugger client state, statistics and parsing logic.
pub mod adapter;
pub mod app;
pub mod app_state;
pub mod config;
pub mod control;
pub mod events;
pub mod fields;
pub mod frames;
pub mod order;
pub mod plugin_law;
pub mod stats;
pub mod text;
pub mod view;
