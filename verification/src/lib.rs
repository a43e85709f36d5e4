//! Bar lyrics: synchronised single-line lyrics for desktop bars.
pub mod cli;
pub mod cover;
pub mod engine;
pub mod ipc;
pub mod json;
pub mod lyrics;
pub mod model;
pub mod options;
pub mod runtime;
pub mod source;
pub mod splayer;
pub mod text;
pub mod waybar;
