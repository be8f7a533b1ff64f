//! Scanner acquisition, processing and export.

pub mod acquisition;
pub mod batch;
pub mod cancellation;
pub mod cli;
pub mod command_line;
pub mod commands;
pub mod crop;
pub mod curves;
pub mod error;
pub mod escl;
pub mod export;
pub mod features;
pub mod film;
pub mod formats;
pub mod geometry;
pub mod gui;
pub mod host;
pub mod image;
pub mod manufacturers;
pub mod overrides;
pub mod paths;
pub mod pdf;
pub mod preview;
pub mod process;
pub mod processing;
pub mod secrets;
pub mod settings;
pub mod text;
pub mod tiff;
pub mod xml;
