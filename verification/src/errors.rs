//! The failure taxonomy: per-file recoverable skips and pipeline-fatal
//! conditions.

use vstd::prelude::*;

verus! {

/// Why one candidate file was left out of the dataset.  A skip never stops
/// the scan; the file is excluded and the walk continues.
#[derive(Clone, Copy, Debug, PartialEq, Eq, Structural)]
pub enum SkipReason {
    /// The file could not be opened or read.
    IoError,
    /// No metadata container could be decoded from the file's bytes, or a
    /// tag value did not have the shape its tag assigns it.
    MetadataDecodeError,
    /// A GPS coordinate tag or its hemisphere-reference tag is missing.
    MissingGeoTag,
    /// The original-capture-time tag is missing.
    MissingTimestampTag,
    /// The capture-time string deviates from the `YYYY:MM:DD HH:MM:SS`
    /// layout or holds an out-of-range field.
    TimestampFormatError,
    /// A coordinate triple was short or had a zero denominator, a
    /// hemisphere reference held an unknown letter, or the converted value
    /// fell outside the legal coordinate range.
    CoordinateDecodeError,
}

/// A condition that aborts dataset construction as a whole; no dataset is
/// produced.
#[derive(Clone, Copy, Debug, PartialEq, Eq, Structural)]
pub enum FatalError {
    /// A full walk produced zero valid assets, so no meaningful time range
    /// exists and no map view can be rendered.
    EmptyDatasetError,
    /// The root directory itself could not be opened.
    RootDirectoryUnreadable,
}

} // verus!
