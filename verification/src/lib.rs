pub mod config;
pub mod map;
