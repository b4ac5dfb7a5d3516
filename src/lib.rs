//! Command-level logic for reading and editing the variables of an Apple
//! NVRAM device image: argument decoding, partition names, and the staging
//! of variable changes against the active bank of the store, and the
//! byte-level conditions under which a device image is handed to the store's
//! parser.

pub mod commands;
pub mod error;
pub mod escape;
pub mod image;
pub mod laws;
pub mod request;
pub mod store;
