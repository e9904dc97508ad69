//! The logic of a command line client that searches AudioBookBay.

pub mod auth;
pub mod config;
pub mod detail;
pub mod display;
pub mod encoding;
pub mod fetch;
pub mod html;
pub mod magnet;
pub mod posts;
pub mod progress;
pub mod results;
pub mod retry;
pub mod search;
pub mod session;
pub mod text;
pub mod torrent;
