pub mod text;
pub mod config;
pub mod system;
pub mod commands;
