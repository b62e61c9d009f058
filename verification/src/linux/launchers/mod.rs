//! One module for each launcher whose games are detected.

pub mod bottles;
pub mod heroic;
pub mod heroic_amazon;
pub mod heroic_epic;
pub mod heroic_gog;
pub mod itch;
pub mod lutris;
pub mod lutris_sort;
pub mod minecraft;
pub mod steam;
