//! Wraps an interactive terminal program, watches what its screen shows and
//! fires shell commands when configured patterns newly appear.
pub mod clock;
pub mod frame;
pub mod config;
pub mod hook;
pub mod screen;
pub mod cli;
pub mod session;
