//! Verified core of a desktop front-end for an external media-download tool.
//!
//! The library holds the logic that can be checked: classifying the tool's
//! diagnostic text, parsing its progress output, deriving a resolution
//! summary from format metadata, and deciding the outcome of a run. The
//! process handling and the UI shell live outside the library.

pub mod download;
pub mod errors;
pub mod formats;
pub mod locator;
pub mod metadata;
pub mod progress;
pub mod text;
