//! Verified core of a screenshot library for wlroots-based Wayland compositors.
//!
//! The modules hold the geometry of outputs and capture regions, the pixel
//! format conversions, the transform of captured frames into images, the
//! parsing of geometry strings and the decisions taken on protocol events.

pub mod capture;
pub mod cli;
pub mod convert;
pub mod dispatch;
pub mod encode;
pub mod error;
pub mod image_buffer;
pub mod output;
pub mod region;
pub mod screencopy;
pub mod text;
pub mod toplevel;
