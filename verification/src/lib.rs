//! Builds the data behind a static image gallery: resolves the configuration,
//! selects the image files of a directory listing, gathers their captions from
//! three sources and lays out the data script that the gallery page loads.

pub mod text;
pub mod captions;
pub mod config;
pub mod depth;
pub mod discovery;
pub mod emit;
