//! Content-addressed mod repositories: building, hashing, diffing and download scheduling.

pub mod digest;
pub mod bytes;
pub mod text;
pub mod password;
pub mod dlc;
pub mod pack;
pub mod server;
pub mod unit;
pub mod pbo;
pub mod file;
pub mod layer;
pub mod names;
pub mod config;
pub mod repository;
pub mod delta;
pub mod pool;
pub mod worker;
