//! Configuration, parameter binding and session logic of a fractal screen saver.

pub mod json;
pub mod color;
pub mod param;
pub mod config;
pub mod saver;
