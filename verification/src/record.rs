//! Builds one validated record per candidate file: requires the GPS
//! coordinate tags with their hemisphere references and the
//! original-capture-time tag, converts and validates them, and otherwise
//! decides exactly why the file is skipped.  No failure here is fatal.

use vstd::prelude::*;

use crate::dataset::{asset_wf, MediaAsset};
use crate::errors::SkipReason;
use crate::exif_io::{exif_decode_ok, exif_tags_of, read_exif_tags};
use crate::rational::{
    apply_hemisphere, rationals_convertible, to_decimal_degrees, triple_den, triple_num, triple_of,
    GeoRational, within_degrees,
};
use crate::timestamp::{
    four_digits, parse_timestamp, timestamp_parses, two_digits,
};

verus! {

/// The hemisphere letters: `N`, `S`, `E`, `W`.
pub const NORTH: u8 = 78;

pub const SOUTH: u8 = 83;

pub const EAST: u8 = 69;

pub const WEST: u8 = 87;

/// One reading of a tag: missing, present with the wrong value shape, or
/// present with its payload.
#[derive(Clone, Debug)]
pub enum TagRead<T> {
    Absent,
    Malformed,
    Present(T),
}

/// The raw readings of the six tags the record builder consumes.
#[derive(Clone, Debug)]
pub struct RawTags {
    pub latitude: TagRead<Vec<GeoRational>>,
    pub latitude_ref: TagRead<Vec<Vec<u8>>>,
    pub longitude: TagRead<Vec<GeoRational>>,
    pub longitude_ref: TagRead<Vec<Vec<u8>>>,
    pub altitude: TagRead<Vec<GeoRational>>,
    pub timestamp: TagRead<Vec<Vec<u8>>>,
}

/// A hemisphere-reference reading is valid iff its first string is
/// exactly the one-letter positive or negative reference.
pub open spec fn ref_valid(v: Seq<Vec<u8>>, plus: u8, minus: u8) -> bool {
    v.len() >= 1 && (v[0]@ == seq![plus] || v[0]@ == seq![minus])
}

/// The reference letter that negates the magnitude.
pub open spec fn ref_negates(v: Seq<Vec<u8>>, minus: u8) -> bool {
    v.len() >= 1 && v[0]@ == seq![minus]
}

/// The latitude numerator after the hemisphere sign (`S` negates).
pub open spec fn lat_num(t: RawTags) -> int {
    let tr = triple_of(t.latitude->Present_0@);
    if ref_negates(t.latitude_ref->Present_0@, SOUTH) {
        -triple_num(tr)
    } else {
        triple_num(tr)
    }
}

pub open spec fn lat_den(t: RawTags) -> int {
    triple_den(triple_of(t.latitude->Present_0@))
}

/// The longitude numerator after the hemisphere sign (`W` negates).
pub open spec fn lon_num(t: RawTags) -> int {
    let tr = triple_of(t.longitude->Present_0@);
    if ref_negates(t.longitude_ref->Present_0@, WEST) {
        -triple_num(tr)
    } else {
        triple_num(tr)
    }
}

pub open spec fn lon_den(t: RawTags) -> int {
    triple_den(triple_of(t.longitude->Present_0@))
}

pub open spec fn lat_in_range(t: RawTags) -> bool {
    -90 * lat_den(t) <= lat_num(t) <= 90 * lat_den(t)
}

pub open spec fn lon_in_range(t: RawTags) -> bool {
    -180 * lon_den(t) <= lon_num(t) <= 180 * lon_den(t)
}

/// The capture-time string: the first byte string of the timestamp tag.
pub open spec fn ts_bytes(t: RawTags) -> Seq<u8> {
    t.timestamp->Present_0@[0]@
}

/// The altitude in meters: the first rational's numerator, or 0 when the
/// tag is absent.
pub open spec fn altitude_of(t: RawTags) -> int {
    if t.altitude is Present {
        t.altitude->Present_0@[0].num as int
    } else {
        0
    }
}

/// Why a file with these tag readings is skipped, or `None` when a record
/// is built.  The checks run in the order the record builder performs
/// them, short-circuiting on the first failure.
pub open spec fn skip_of(t: RawTags) -> Option<SkipReason> {
    if t.latitude is Absent || t.latitude_ref is Absent || t.longitude is Absent
        || t.longitude_ref is Absent {
        Some(SkipReason::MissingGeoTag)
    } else if t.timestamp is Absent {
        Some(SkipReason::MissingTimestampTag)
    } else if t.latitude is Malformed || t.latitude_ref is Malformed || t.longitude is Malformed
        || t.longitude_ref is Malformed {
        Some(SkipReason::MetadataDecodeError)
    } else if !rationals_convertible(t.latitude->Present_0@) || !rationals_convertible(
        t.longitude->Present_0@,
    ) || !ref_valid(t.latitude_ref->Present_0@, NORTH, SOUTH) || !ref_valid(
        t.longitude_ref->Present_0@,
        EAST,
        WEST,
    ) {
        Some(SkipReason::CoordinateDecodeError)
    } else if !lat_in_range(t) || !lon_in_range(t) {
        Some(SkipReason::CoordinateDecodeError)
    } else if t.timestamp is Malformed {
        Some(SkipReason::MetadataDecodeError)
    } else if t.timestamp->Present_0@.len() == 0 {
        Some(SkipReason::MetadataDecodeError)
    } else if !timestamp_parses(ts_bytes(t)) {
        Some(SkipReason::TimestampFormatError)
    } else if t.altitude is Malformed || (t.altitude is Present && t.altitude->Present_0@.len()
        == 0) {
        Some(SkipReason::MetadataDecodeError)
    } else {
        None
    }
}

/// The data a built record must carry for a given path and tag readings:
/// the original absolute path, the signed exact coordinate fractions, the
/// capture-time fields exactly as written in the timestamp string, the
/// altitude, and validity.  Everything but the identifier.
pub open spec fn record_data_matches(a: MediaAsset, path: Seq<u8>, t: RawTags) -> bool {
    &&& a.source_path@ == path
    &&& a.latitude.num == lat_num(t) && a.latitude.den == lat_den(t)
    &&& a.longitude.num == lon_num(t) && a.longitude.den == lon_den(t)
    &&& a.capture_time.year == four_digits(ts_bytes(t), 0)
    &&& a.capture_time.month == two_digits(ts_bytes(t), 5)
    &&& a.capture_time.day == two_digits(ts_bytes(t), 8)
    &&& a.capture_time.hour == two_digits(ts_bytes(t), 11)
    &&& a.capture_time.minute == two_digits(ts_bytes(t), 14)
    &&& a.capture_time.second == two_digits(ts_bytes(t), 17)
    &&& a.altitude_m == altitude_of(t)
    &&& asset_wf(a)
}

/// Why decoding these bytes skips the file, or `None` when they yield a
/// record: the container does not decode (`MetadataDecodeError`), or its
/// tag readings fail the record builder's checks.
pub open spec fn decode_outcome(b: Seq<u8>) -> Option<SkipReason> {
    if !exif_decode_ok(b) {
        Some(SkipReason::MetadataDecodeError)
    } else {
        skip_of(exif_tags_of(b))
    }
}

/// Reads a hemisphere reference: `Some(negate)` when the reading is the
/// one-letter positive or negative reference, `None` otherwise.
fn read_reference(v: &Vec<Vec<u8>>, plus: u8, minus: u8) -> (r: Option<bool>)
    requires
        plus != minus,
    ensures
        r is Some <==> ref_valid(v@, plus, minus),
        r matches Some(neg) ==> neg == ref_negates(v@, minus),
{
    if v.len() == 0 {
        return None;
    }
    let s = &v[0];
    if s.len() != 1 {
        proof {
            assert(v@[0]@ != seq![plus] && v@[0]@ != seq![minus]) by {
                assert(seq![plus].len() == 1 && seq![minus].len() == 1);
            }
        }
        return None;
    }
    let c = s[0];
    proof {
        assert(v@[0]@ =~= seq![v@[0]@[0]]);
    }
    if c == minus {
        Some(true)
    } else if c == plus {
        Some(false)
    } else {
        None
    }
}

/// Combines the six tag readings into one validated record, or decides
/// the exact reason the file is skipped.  On success the record carries
/// identifier 0 (unassigned), the original path, the signed exact
/// coordinate fractions, the parsed capture time, and the altitude.
pub fn assemble_record(path: &Vec<u8>, tags: &RawTags) -> (r: Result<MediaAsset, SkipReason>)
    ensures
        r is Err <==> skip_of(*tags) is Some,
        r matches Err(e) ==> Some(e) == skip_of(*tags),
        r matches Ok(a) ==> a.id == 0 && record_data_matches(a, path@, *tags),
{
    let lat_rats = match &tags.latitude {
        TagRead::Absent => {
            return Err(SkipReason::MissingGeoTag);
        },
        TagRead::Malformed => None,
        TagRead::Present(v) => Some(v),
    };
    let lat_ref = match &tags.latitude_ref {
        TagRead::Absent => {
            return Err(SkipReason::MissingGeoTag);
        },
        TagRead::Malformed => None,
        TagRead::Present(v) => Some(v),
    };
    let lon_rats = match &tags.longitude {
        TagRead::Absent => {
            return Err(SkipReason::MissingGeoTag);
        },
        TagRead::Malformed => None,
        TagRead::Present(v) => Some(v),
    };
    let lon_ref = match &tags.longitude_ref {
        TagRead::Absent => {
            return Err(SkipReason::MissingGeoTag);
        },
        TagRead::Malformed => None,
        TagRead::Present(v) => Some(v),
    };
    let ts_strings = match &tags.timestamp {
        TagRead::Absent => {
            return Err(SkipReason::MissingTimestampTag);
        },
        TagRead::Malformed => None,
        TagRead::Present(v) => Some(v),
    };
    let (lat_rats, lat_ref, lon_rats, lon_ref) = match (lat_rats, lat_ref, lon_rats, lon_ref) {
        (Some(a), Some(b), Some(c), Some(d)) => (a, b, c, d),
        _ => {
            return Err(SkipReason::MetadataDecodeError);
        },
    };
    let lat_mag = to_decimal_degrees(lat_rats);
    let lon_mag = to_decimal_degrees(lon_rats);
    let lat_neg = read_reference(lat_ref, NORTH, SOUTH);
    let lon_neg = read_reference(lon_ref, EAST, WEST);
    let (lat_mag, lon_mag, lat_neg, lon_neg) = match (lat_mag, lon_mag, lat_neg, lon_neg) {
        (Ok(a), Ok(b), Some(c), Some(d)) => (a, b, c, d),
        _ => {
            return Err(SkipReason::CoordinateDecodeError);
        },
    };
    let latitude = apply_hemisphere(lat_mag, lat_neg);
    let longitude = apply_hemisphere(lon_mag, lon_neg);
    if !within_degrees(&latitude, 90) || !within_degrees(&longitude, 180) {
        return Err(SkipReason::CoordinateDecodeError);
    }
    let ts_strings = match ts_strings {
        Some(v) => v,
        None => {
            return Err(SkipReason::MetadataDecodeError);
        },
    };
    if ts_strings.len() == 0 {
        return Err(SkipReason::MetadataDecodeError);
    }
    let capture_time = match parse_timestamp(&ts_strings[0]) {
        Ok(dt) => dt,
        Err(_) => {
            return Err(SkipReason::TimestampFormatError);
        },
    };
    let altitude_m: i64 = match &tags.altitude {
        TagRead::Absent => 0,
        TagRead::Malformed => {
            return Err(SkipReason::MetadataDecodeError);
        },
        TagRead::Present(v) => {
            if v.len() == 0 {
                return Err(SkipReason::MetadataDecodeError);
            }
            v[0].num as i64
        },
    };
    Ok(
        MediaAsset {
            id: 0,
            source_path: path.clone(),
            capture_time,
            latitude,
            longitude,
            altitude_m,
        },
    )
}

/// Decodes one candidate file from its bytes.  `None` bytes mean the
/// file could not be read (`IoError`).  For given bytes the outcome is
/// determined: the skip reason that `decode_outcome` names, or, when
/// there is none, exactly the record that the tag readings of those
/// bytes yield — identifier 0, the original path, and the converted
/// fields.
pub fn decode_file(path: &Vec<u8>, bytes: &Option<Vec<u8>>) -> (r: Result<MediaAsset, SkipReason>)
    ensures
        r == Result::<MediaAsset, SkipReason>::Err(SkipReason::IoError) <==> bytes is None,
        bytes matches Some(b) ==> {
            &&& (r is Err <==> decode_outcome(b@) is Some)
            &&& (r matches Err(e) ==> Some(e) == decode_outcome(b@))
            &&& (r matches Ok(a) ==> a.id == 0 && record_data_matches(a, path@, exif_tags_of(b@)))
        },
{
    let b = match bytes {
        Some(b) => b,
        None => {
            return Err(SkipReason::IoError);
        },
    };
    let tags = match read_exif_tags(b) {
        Some(t) => t,
        None => {
            return Err(SkipReason::MetadataDecodeError);
        },
    };
    let r = assemble_record(path, &tags);
    proof {
        if r is Err {
            assert(Some(r->Err_0) == skip_of(tags));
            assert(r->Err_0 != SkipReason::IoError);
        }
    }
    r
}

} // verus!
