//! Git commit heatmap rendering: scale thresholds, palettes, author filters,
//! calendar sections and the terminal text renderer.

pub mod scale;
pub mod strings;
pub mod palette;
pub mod common;
pub mod authors;
pub mod doctor;
pub mod render;
pub mod terminal;
pub mod text;
pub mod dates;
pub mod sections;
pub mod git;
pub mod cli;
pub mod config;
