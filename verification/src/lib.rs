//! Ingestion core of a music library: classifying files, normalising tag
//! metadata, finding cover art, grouping tracks into albums and planning the
//! rows that a store receives.

pub mod album;
pub mod audio;
pub mod classify;
pub mod cover;
pub mod grouping;
pub mod ingest;
pub mod metadata;
pub mod persist;
pub mod progress;
pub mod text;
