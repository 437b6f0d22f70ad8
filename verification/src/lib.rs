//! Transcoder from the S3M tracker module format to the C67 playback format.
//!
//! The pipeline has three stages: `format_s3m` decodes a byte stream into a
//! structured source module, `conversion` remaps the source's channels and
//! instruments into the target's fixed capacities and rewrites every pattern
//! into the target bytecode, and `format_c67` serializes the result into the
//! target's exact byte layout.

pub mod adlib;
pub mod conversion;
pub mod format_c67;
pub mod format_s3m;
