//! Resolution and verified acquisition of MariaDB server releases.
//!
//! The crate resolves a symbolic version request ("latest", "lts", an exact
//! version string) against a catalog of release metadata, determines the
//! platform-specific artifact name and download location, verifies artifact
//! integrity by SHA-256 digest, and drives the acquisition as a pure state
//! machine whose I/O actions are carried out by the caller.

pub mod catalog;
pub mod checksum;
pub mod download;
pub mod errors;
pub mod mirror;
pub mod platform;
pub mod resolve;
pub mod text;
pub mod version_order;
