//! Kyanite: planning and bookkeeping for an image-board downloader.

pub mod text;
pub mod stats;
pub mod utils;
pub mod downloader;
pub mod manifest;
pub mod order;
pub mod item;
pub mod utility;
pub mod params;
pub mod collector;
pub mod collectors;
pub mod modules;
