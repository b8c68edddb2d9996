//! The trusted boundary to the `exif` crate.  Decoding a metadata
//! container and reading the six fixed tags the pipeline needs is a pure
//! function of the file's bytes — no time, randomness or environment
//! enters it — so the two readings are given names, `exif_decode_ok` and
//! `exif_tags_of`, rather than written out.  The verified record builder
//! then states exactly what is returned for every reading.

use vstd::prelude::*;

use crate::rational::GeoRational;
use crate::record::{RawTags, TagRead};

verus! {

/// Whether the exif crate decodes a metadata container out of these
/// bytes.  Named: which inputs decode is the crate's own file-format
/// knowledge, a function of the bytes alone.
pub uninterp spec fn exif_decode_ok(b: Seq<u8>) -> bool;

/// The readings of the six fixed tags in the container decoded from
/// these bytes.  Named: the result is a function of the bytes alone.
pub uninterp spec fn exif_tags_of(b: Seq<u8>) -> RawTags;

/// The exif crate's tag/value pair, opaque to verification.
#[verifier::external_type_specification]
#[verifier::external_body]
pub struct ExExifField(exif::Field);

/// Relies on `exif::Field`: converts one looked-up field to a plain
/// reading — Absent when the tag is missing, Malformed when its value is
/// not the unsigned-rational vector the Exif specification assigns these
/// tags, otherwise the numerator/denominator pairs in order.
#[verifier::external_body]
fn rational_value(f: Option<&exif::Field>) -> TagRead<Vec<GeoRational>> {
    match f {
        None => TagRead::Absent,
        Some(f) => match &f.value {
            exif::Value::Rational(v) => TagRead::Present(
                v.iter().map(|r| GeoRational { num: r.num, den: r.denom }).collect(),
            ),
            _ => TagRead::Malformed,
        },
    }
}

/// Relies on `exif::Field`: converts one looked-up field to a plain
/// reading — Absent when the tag is missing, Malformed when its value is
/// not an ASCII value, otherwise the value's byte strings in order.
#[verifier::external_body]
fn text_value(f: Option<&exif::Field>) -> TagRead<Vec<Vec<u8>>> {
    match f {
        None => TagRead::Absent,
        Some(f) => match &f.value {
            exif::Value::Ascii(v) => TagRead::Present(v.clone()),
            _ => TagRead::Malformed,
        },
    }
}

/// Relies on `exif::Reader::read_from_container` (parsing a TIFF, JPEG,
/// PNG, HEIF or WebP container out of in-memory bytes) and
/// `exif::Exif::get_field` (looking a tag up in the primary image's
/// directory).  Both are deterministic in the bytes, so the contract only
/// names their combined result: `None` exactly when the container does
/// not decode, otherwise the six tag readings.
#[verifier::external_body]
pub(crate) fn read_exif_tags(bytes: &Vec<u8>) -> (r: Option<RawTags>)
    ensures
        r is Some <==> exif_decode_ok(bytes@),
        r matches Some(t) ==> t == exif_tags_of(bytes@),
{
    let reader = exif::Reader::new();
    let mut cursor = std::io::Cursor::new(bytes.as_slice());
    let e = match reader.read_from_container(&mut cursor) {
        Ok(e) => e,
        Err(_) => return None,
    };
    Some(RawTags {
        latitude: rational_value(e.get_field(exif::Tag::GPSLatitude, exif::In::PRIMARY)),
        latitude_ref: text_value(e.get_field(exif::Tag::GPSLatitudeRef, exif::In::PRIMARY)),
        longitude: rational_value(e.get_field(exif::Tag::GPSLongitude, exif::In::PRIMARY)),
        longitude_ref: text_value(e.get_field(exif::Tag::GPSLongitudeRef, exif::In::PRIMARY)),
        altitude: rational_value(e.get_field(exif::Tag::GPSAltitude, exif::In::PRIMARY)),
        timestamp: text_value(e.get_field(exif::Tag::DateTimeOriginal, exif::In::PRIMARY)),
    })
}

} // verus!
