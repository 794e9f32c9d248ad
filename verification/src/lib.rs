pub mod actions;
pub mod app;
pub mod fp;
pub mod hex_pattern;
pub mod parsing;
pub mod rendering;
pub mod simulator;
