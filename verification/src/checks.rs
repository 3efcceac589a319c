pub mod cargo;
pub mod common;
pub mod meow;
pub mod runner;
pub mod version_bump;
