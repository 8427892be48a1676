//! Tools for the pack2 read-only asset-archive format: the archive container
//! and its extractor, the 64-bit name-hashing scheme that keys every entry,
//! and the manifest engine that fingerprints an archive and diffs two
//! fingerprints to detect changes between archive versions.

pub mod bin_utils;
pub mod crc64;
pub mod dma;
pub mod dme;
pub mod error;
pub mod filename_extractor;
pub mod fsb5;
pub mod jenkins_hash;
pub mod json_utils;
pub mod pack1;
pub mod pack2;
pub mod pack2_manifest;
pub mod strutil;
pub mod to_glb;
pub mod zlib;

pub use error::Nups2Error;
