//! Asynchronous file scanning: an in-memory scan registry, the staged scan job
//! that fills it, the progress log that readers poll, and the verdict rule.

pub mod bytes;
pub mod digest;
pub mod indicators;
pub mod multipart;
pub mod progress;
pub mod registry;
pub mod routing;
pub mod scanner;
pub mod text;
pub mod types;
pub mod upload;
pub mod verdict;
