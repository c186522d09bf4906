//! A small append-only text logger: timestamped lines are prepended to a
//! plain-text log file, and queries scan the file's lines with date-range,
//! tag and recency filters plus a result limit.

pub mod args;
pub mod clock;
pub mod config;
pub mod query;
pub mod text;
pub mod writer;
