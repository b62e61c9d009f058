//! The game sources found on Linux.

pub mod launchers;
