//! Storage, locking and deduplication engine of a multi-tenant file
//! synchronisation server.
pub mod config;
pub mod consistency;
pub mod content;
pub mod delete_file;
pub mod engine;
pub mod kvstorage;
pub mod locks;
pub mod timestamp;
pub mod version;
