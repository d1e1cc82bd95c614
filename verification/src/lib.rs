//! Verified core of a streaming-media downloader: URL identifier resolution,
//! play-information extraction, stream selection, and the per-task download
//! orchestration rules.

pub mod bangumi;
pub mod download;
pub mod errors;
pub mod fetch;
pub mod parser;
pub mod text;
pub mod urlpath;

pub use errors::DlError;
