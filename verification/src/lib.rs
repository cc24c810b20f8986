//! Verified core of a small S3 uploader: configuration profiles and their
//! on-disk text format, resolution of a profile into a concrete storage
//! target, destination-key computation, work partitioning across upload
//! workers, and success/failure accounting for a batch.
//!
//! All file, network and terminal I/O lives outside this crate; the library
//! works on plain values and states what it returns for every input.

pub mod batch;
pub mod profile;
pub mod resolve;
pub mod text;
