//! Back ends of a data engine: an object store in the cloud, a shuffle service, and
//! the rules that rewrite its plans.
//!
//! The library decides; it does no input or output. What is to be asked of a service
//! is a value that it returns, and what the service answered is a value that it takes.

pub mod celeborn;
pub mod client;
pub mod config;
pub mod error;
pub mod listing;
pub mod location;
pub mod multipart;
pub mod operations;
pub mod retry;
pub mod rule;
pub mod source;
pub mod storage;
pub mod text;
