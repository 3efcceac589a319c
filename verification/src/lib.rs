pub mod checks;
pub mod config;
pub mod hook;
pub mod input;
pub mod pattern;
pub mod presets;
pub mod strutil;
pub mod transcript;
pub mod zellij;
