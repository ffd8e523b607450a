//! Loader for the legacy family of ggml model-container formats.
//!
//! The crate recognises the four container variants by their 4-byte magic,
//! streams tensor records out of one or more part files, validates each
//! record against a registry of destination tensors, and copies the record's
//! bytes into the right destination ranges, honouring the row/column split
//! policy that multi-part models use.

pub mod container;
pub mod cursor;
pub mod element;
pub mod errors;
pub mod loader;
pub mod mode;
pub mod overrides;
pub mod registry;
pub mod split;
