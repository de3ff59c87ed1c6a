//! A pipeline that reads geolocation and capture-time metadata out of image
//! files, normalizes it into plain records, and prepares one keyed message per
//! file for a broker.
//!
//! The crate is organised in dependency order: `utils` holds the pure
//! coordinate and timestamp normalizers, `message` the per-file record and tag
//! extraction, `directory_reader` the tree scan, `producer` the ordered,
//! fail-fast delivery protocol, and `config`, `logger` and `service` the
//! surrounding plumbing and the request-level policy.

pub mod config;
pub mod directory_reader;
pub mod logger;
pub mod message;
pub mod producer;
pub mod service;
pub mod utils;
