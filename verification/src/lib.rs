//! Extracts geolocation and capture-time metadata from a tree of
//! photographs and aggregates it into an ordered, validated dataset
//! suitable for rendering on a map timeline.
//!
//! The pipeline: [`walker`] enumerates candidate files by the
//! [`path_filter`] allow-list; [`record`] decodes each file's tag table
//! through [`exif_io`], converts coordinates with [`rational`], parses the
//! capture time with [`timestamp`], and isolates every per-file failure as
//! an [`errors::SkipReason`]; [`pipeline`] feeds the surviving records to
//! [`dataset`], which sorts them, assigns identifiers and computes the
//! time range.  [`codec`] reversibly turns a source path into a
//! transport-safe token for the serving layer.  Reading file bytes is the
//! caller's part: the pipeline takes each candidate's bytes as a value.

pub mod codec;
pub mod dataset;
pub mod errors;
pub mod exif_io;
pub mod path_filter;
pub mod pipeline;
pub mod rational;
pub mod record;
pub mod timestamp;
pub mod walker;
