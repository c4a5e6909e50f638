//! Toggles the compression state of a cache file: a fixed 2048-byte header
//! followed by a payload that is either raw or a single zstd frame.
pub mod codec;
pub mod header;
pub mod toggle;
pub mod transform;
