//! Verified core of a quick-copy tool: destination resolution against a
//! host/alias configuration, glob-based exclude filtering and zip archive
//! construction, remote command-line construction, and output formatting.

pub mod archive;
pub mod clock;
pub mod commands;
pub mod config;
pub mod output;
pub mod pattern;
pub mod remote;
pub mod resolve;
pub mod strutil;
pub mod zipstore;
