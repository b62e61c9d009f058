//! Helpers shared by the launchers: titles, paths and launch commands.

pub mod commands;
pub mod paths;
pub mod strings;
