//! Image conversion planning, naming, colour parsing, and theme management with
//! machine-checked contracts.
pub mod text;
pub mod color;
pub mod options;
pub mod resize;
pub mod matte;
pub mod imaging;
pub mod paths;
pub mod engine;
pub mod report;
pub mod queue;
pub mod theme;
pub mod theme_catalog;
pub mod glass;
pub mod cli;
pub mod workbench;
