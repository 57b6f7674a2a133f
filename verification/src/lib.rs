//! Wallpaper history and the fixed three-step sequence of external tools
//! that applies a wallpaper.

pub mod cli;
pub mod history;
pub mod programs;
pub mod sequencer;
pub mod text;
pub mod utils;
