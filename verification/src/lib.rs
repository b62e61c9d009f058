//! Detection of installed games from the catalogues that game launchers keep
//! on disk: scanners for their text formats, the joins between the records of
//! two files, and the rules by which paths and launch commands are derived.

pub mod data;
pub mod detector;
pub mod error;
pub mod field_join;
pub mod lines;
pub mod linux;
pub mod parsers;
pub mod reconcile;
pub mod records;
pub mod scanner;
pub mod text;
pub mod utils;
