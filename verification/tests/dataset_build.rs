use displayer::dataset::{aggregate, Dataset, MediaAsset};
use displayer::errors::{FatalError, SkipReason};
use displayer::pipeline::{build_dataset_from_files, FileInput};
use displayer::rational::DecimalDegrees;
use displayer::record::{assemble_record, decode_file, RawTags, TagRead};
use displayer::rational::GeoRational;
use displayer::timestamp::DateTime;

// --- a tiny little-endian TIFF writer for in-memory test images ---

fn le16(v: &mut Vec<u8>, x: u16) {
    v.push((x & 0xff) as u8);
    v.push((x >> 8) as u8);
}

fn le32(v: &mut Vec<u8>, x: u32) {
    v.push((x & 0xff) as u8);
    v.push(((x >> 8) & 0xff) as u8);
    v.push(((x >> 16) & 0xff) as u8);
    v.push(((x >> 24) & 0xff) as u8);
}

fn entry(v: &mut Vec<u8>, tag: u16, typ: u16, count: u32, value: u32) {
    le16(v, tag);
    le16(v, typ);
    le32(v, count);
    le32(v, value);
}

fn entry_ascii_inline(v: &mut Vec<u8>, tag: u16, letter: u8) {
    le16(v, tag);
    le16(v, 2);
    le32(v, 2);
    v.push(letter);
    v.push(0);
    v.push(0);
    v.push(0);
}

struct Gps {
    lat_ref: u8,
    lat: [(u32, u32); 3],
    lon_ref: u8,
    lon: [(u32, u32); 3],
    alt: Option<(u32, u32)>,
}

/// Builds a minimal TIFF image holding the given Exif date string and GPS
/// block, as camera firmware would.
fn build_tiff(date: Option<&[u8]>, gps: Option<&Gps>) -> Vec<u8> {
    let n0 = date.is_some() as usize + gps.is_some() as usize;
    let ifd0_off = 8usize;
    let ifd0_len = 2 + 12 * n0 + 4;
    let exif_off = ifd0_off + ifd0_len;
    let exif_len = if date.is_some() { 2 + 12 + 4 } else { 0 };
    let gps_off = exif_off + exif_len;
    let ngps = gps.map_or(0, |g| 4 + g.alt.is_some() as usize);
    let gps_len = if gps.is_some() { 2 + 12 * ngps + 4 } else { 0 };
    let mut data_off = gps_off + gps_len;

    let mut v = Vec::new();
    v.push(b'I');
    v.push(b'I');
    le16(&mut v, 42);
    le32(&mut v, ifd0_off as u32);
    // IFD0: pointers to the Exif and GPS IFDs.
    le16(&mut v, n0 as u16);
    if date.is_some() {
        entry(&mut v, 0x8769, 4, 1, exif_off as u32);
    }
    if gps.is_some() {
        entry(&mut v, 0x8825, 4, 1, gps_off as u32);
    }
    le32(&mut v, 0);
    let date_off = data_off;
    if let Some(d) = date {
        le16(&mut v, 1);
        entry(&mut v, 0x9003, 2, d.len() as u32 + 1, date_off as u32);
        le32(&mut v, 0);
        data_off += d.len() + 1;
    }
    if let Some(g) = gps {
        let lat_off = data_off;
        let lon_off = lat_off + 24;
        let alt_off = lon_off + 24;
        le16(&mut v, ngps as u16);
        entry_ascii_inline(&mut v, 0x1, g.lat_ref);
        entry(&mut v, 0x2, 5, 3, lat_off as u32);
        entry_ascii_inline(&mut v, 0x3, g.lon_ref);
        entry(&mut v, 0x4, 5, 3, lon_off as u32);
        if g.alt.is_some() {
            entry(&mut v, 0x6, 5, 1, alt_off as u32);
        }
        le32(&mut v, 0);
    }
    if let Some(d) = date {
        v.extend_from_slice(d);
        v.push(0);
    }
    if let Some(g) = gps {
        for &(n, den) in g.lat.iter().chain(g.lon.iter()) {
            le32(&mut v, n);
            le32(&mut v, den);
        }
        if let Some((n, den)) = g.alt {
            le32(&mut v, n);
            le32(&mut v, den);
        }
    }
    v
}

fn full_gps() -> Gps {
    Gps {
        lat_ref: b'N',
        lat: [(40, 1), (26, 1), (46, 1)],
        lon_ref: b'E',
        lon: [(79, 1), (58, 1), (56, 1)],
        alt: Some((123, 1)),
    }
}

fn input(path: &[u8], bytes: Option<Vec<u8>>) -> FileInput {
    FileInput { path: path.to_vec(), bytes }
}

// --- end-to-end decoding through the real exif crate ---

#[test]
fn decodes_a_geotagged_file() {
    let bytes = build_tiff(Some(b"2023:02:05 14:30:00"), Some(&full_gps()));
    let a = decode_file(&b"/data/a.jpg".to_vec(), &Some(bytes)).unwrap();
    assert_eq!(a.id, 0);
    assert_eq!(a.source_path, b"/data/a.jpg".to_vec());
    assert_eq!(a.latitude.num, 145606);
    assert_eq!(a.latitude.den, 3600);
    assert_eq!(a.longitude.num, 79 * 3600 + 58 * 60 + 56);
    assert_eq!(a.longitude.den, 3600);
    assert_eq!(a.capture_time, DateTime { year: 2023, month: 2, day: 5, hour: 14, minute: 30, second: 0 });
    assert_eq!(a.altitude_m, 123);
}

#[test]
fn southern_western_hemispheres_negate() {
    let gps = Gps { lat_ref: b'S', lon_ref: b'W', alt: None, ..full_gps() };
    let bytes = build_tiff(Some(b"2023:02:05 14:30:00"), Some(&gps));
    let a = decode_file(&b"/d/s.jpg".to_vec(), &Some(bytes)).unwrap();
    assert_eq!(a.latitude.num, -145606);
    assert_eq!(a.latitude.den, 3600);
    assert!(a.longitude.num < 0);
    assert_eq!(a.altitude_m, 0);
}

#[test]
fn unreadable_file_is_io_error() {
    let r = decode_file(&b"/d/a.jpg".to_vec(), &None);
    assert!(matches!(r, Err(SkipReason::IoError)));
}

#[test]
fn garbage_bytes_are_a_decode_error() {
    let r = decode_file(&b"/d/a.jpg".to_vec(), &Some(b"not an image at all".to_vec()));
    assert!(matches!(r, Err(SkipReason::MetadataDecodeError)));
}

#[test]
fn missing_gps_is_a_geo_tag_skip() {
    let bytes = build_tiff(Some(b"2023:02:05 14:30:00"), None);
    let r = decode_file(&b"/d/a.jpg".to_vec(), &Some(bytes));
    assert!(matches!(r, Err(SkipReason::MissingGeoTag)));
}

#[test]
fn missing_timestamp_is_a_timestamp_tag_skip() {
    let bytes = build_tiff(None, Some(&full_gps()));
    let r = decode_file(&b"/d/a.jpg".to_vec(), &Some(bytes));
    assert!(matches!(r, Err(SkipReason::MissingTimestampTag)));
}

#[test]
fn malformed_timestamp_is_a_format_error() {
    let bytes = build_tiff(Some(b"2023-02-05 14:30:00"), Some(&full_gps()));
    let r = decode_file(&b"/d/a.jpg".to_vec(), &Some(bytes));
    assert!(matches!(r, Err(SkipReason::TimestampFormatError)));
}

#[test]
fn zero_denominator_is_a_coordinate_error() {
    let gps = Gps { lat: [(40, 0), (26, 1), (46, 1)], ..full_gps() };
    let bytes = build_tiff(Some(b"2023:02:05 14:30:00"), Some(&gps));
    let r = decode_file(&b"/d/a.jpg".to_vec(), &Some(bytes));
    assert!(matches!(r, Err(SkipReason::CoordinateDecodeError)));
}

#[test]
fn out_of_range_latitude_is_a_coordinate_error() {
    let gps = Gps { lat: [(91, 1), (0, 1), (0, 1)], ..full_gps() };
    let bytes = build_tiff(Some(b"2023:02:05 14:30:00"), Some(&gps));
    let r = decode_file(&b"/d/a.jpg".to_vec(), &Some(bytes));
    assert!(matches!(r, Err(SkipReason::CoordinateDecodeError)));
}

#[test]
fn unknown_hemisphere_letter_is_a_coordinate_error() {
    let gps = Gps { lat_ref: b'X', ..full_gps() };
    let bytes = build_tiff(Some(b"2023:02:05 14:30:00"), Some(&gps));
    let r = decode_file(&b"/d/a.jpg".to_vec(), &Some(bytes));
    assert!(matches!(r, Err(SkipReason::CoordinateDecodeError)));
}

// --- the record builder on raw readings ---

fn rats(v: &[(u32, u32)]) -> TagRead<Vec<GeoRational>> {
    TagRead::Present(v.iter().map(|&(num, den)| GeoRational { num, den }).collect())
}

fn text(s: &[u8]) -> TagRead<Vec<Vec<u8>>> {
    TagRead::Present(vec![s.to_vec()])
}

fn good_tags() -> RawTags {
    RawTags {
        latitude: rats(&[(40, 1), (26, 1), (46, 1)]),
        latitude_ref: text(b"N"),
        longitude: rats(&[(79, 1), (58, 1), (56, 1)]),
        longitude_ref: text(b"E"),
        altitude: TagRead::Absent,
        timestamp: text(b"2023:02:05 14:30:00"),
    }
}

#[test]
fn builds_a_record_from_good_tags() {
    let a = assemble_record(&b"/p/a.jpg".to_vec(), &good_tags()).unwrap();
    assert_eq!(a.id, 0);
    assert_eq!(a.altitude_m, 0);
    assert_eq!(a.latitude.num, 145606);
}

#[test]
fn absent_reference_is_a_geo_tag_skip() {
    let tags = RawTags { latitude_ref: TagRead::Absent, ..good_tags() };
    let r = assemble_record(&b"/p/a.jpg".to_vec(), &tags);
    assert!(matches!(r, Err(SkipReason::MissingGeoTag)));
}

#[test]
fn malformed_tag_shape_is_a_decode_error() {
    let tags = RawTags { longitude: TagRead::Malformed, ..good_tags() };
    let r = assemble_record(&b"/p/a.jpg".to_vec(), &tags);
    assert!(matches!(r, Err(SkipReason::MetadataDecodeError)));
}

#[test]
fn short_rational_triple_is_a_coordinate_error() {
    let tags = RawTags { latitude: rats(&[(40, 1)]), ..good_tags() };
    let r = assemble_record(&b"/p/a.jpg".to_vec(), &tags);
    assert!(matches!(r, Err(SkipReason::CoordinateDecodeError)));
}

// --- aggregation ---

fn frac(num: i128, den: i128) -> DecimalDegrees {
    DecimalDegrees { num, den }
}

fn asset(path: &[u8], t: DateTime) -> MediaAsset {
    MediaAsset {
        id: 0,
        source_path: path.to_vec(),
        capture_time: t,
        latitude: frac(45, 1),
        longitude: frac(-120, 1),
        altitude_m: 0,
    }
}

fn at(second: u8) -> DateTime {
    DateTime { year: 2023, month: 2, day: 5, hour: 14, minute: 30, second }
}

#[test]
fn sorts_assigns_ids_and_computes_range() {
    let records = vec![
        asset(b"/p/c.jpg", at(9)),
        asset(b"/p/a.jpg", at(1)),
        asset(b"/p/b.jpg", at(5)),
    ];
    let d: Dataset = aggregate(records).unwrap();
    assert_eq!(d.assets.len(), 3);
    assert_eq!(d.assets[0].source_path, b"/p/a.jpg".to_vec());
    assert_eq!(d.assets[1].source_path, b"/p/b.jpg".to_vec());
    assert_eq!(d.assets[2].source_path, b"/p/c.jpg".to_vec());
    let ids: Vec<u64> = d.assets.iter().map(|a| a.id).collect();
    assert_eq!(ids, vec![1, 2, 3]);
    assert_eq!(d.first_capture_time, at(1));
    assert_eq!(d.last_capture_time, at(9));
}

#[test]
fn equal_times_keep_discovery_order() {
    let records = vec![
        asset(b"/p/later.jpg", at(7)),
        asset(b"/p/first.jpg", at(3)),
        asset(b"/p/second.jpg", at(3)),
        asset(b"/p/third.jpg", at(3)),
    ];
    let d = aggregate(records).unwrap();
    assert_eq!(d.assets[0].source_path, b"/p/first.jpg".to_vec());
    assert_eq!(d.assets[1].source_path, b"/p/second.jpg".to_vec());
    assert_eq!(d.assets[2].source_path, b"/p/third.jpg".to_vec());
    assert_eq!(d.assets[3].source_path, b"/p/later.jpg".to_vec());
    assert_eq!(d.assets[3].id, 4);
}

#[test]
fn empty_input_is_fatal() {
    let r = aggregate(Vec::new());
    assert!(matches!(r, Err(FatalError::EmptyDatasetError)));
}

// --- the full in-memory pipeline ---

#[test]
fn one_valid_one_skipped_one_ignored() {
    let files = vec![
        input(b"/data/a.jpg", Some(build_tiff(Some(b"2023:02:05 14:30:00"), Some(&full_gps())))),
        input(b"/data/b.jpg", Some(build_tiff(Some(b"2023:02:05 14:30:00"), None))),
        input(b"/data/notes.txt", Some(b"just text".to_vec())),
    ];
    let report = build_dataset_from_files(files);
    let d = report.outcome.unwrap();
    assert_eq!(d.assets.len(), 1);
    assert_eq!(d.assets[0].id, 1);
    assert_eq!(d.assets[0].source_path, b"/data/a.jpg".to_vec());
    assert_eq!(report.skipped.len(), 1);
    assert_eq!(report.skipped[0].path, b"/data/b.jpg".to_vec());
    assert!(matches!(report.skipped[0].reason, SkipReason::MissingGeoTag));
}

#[test]
fn distinct_times_in_arbitrary_order() {
    let mut files = Vec::new();
    let seconds = [9u8, 1, 56, 30, 17];
    for (k, s) in seconds.iter().enumerate() {
        let date = format!("2023:02:05 14:30:{:02}", s);
        let path = format!("/data/img{}.jpg", k);
        files.push(input(path.as_bytes(), Some(build_tiff(Some(date.as_bytes()), Some(&full_gps())))));
    }
    let report = build_dataset_from_files(files);
    let d = report.outcome.unwrap();
    assert_eq!(d.assets.len(), 5);
    for (i, a) in d.assets.iter().enumerate() {
        assert_eq!(a.id as usize, i + 1);
    }
    let mut sorted = seconds.to_vec();
    sorted.sort();
    let got: Vec<u8> = d.assets.iter().map(|a| a.capture_time.second).collect();
    assert_eq!(got, sorted);
    assert_eq!(d.first_capture_time.second, 1);
    assert_eq!(d.last_capture_time.second, 56);
    assert!(report.skipped.is_empty());
}

#[test]
fn zero_valid_files_is_fatal_not_empty() {
    let files = vec![
        input(b"/data/a.jpg", Some(b"garbage".to_vec())),
        input(b"/data/b.jpg", None),
        input(b"/data/readme.md", Some(b"text".to_vec())),
    ];
    let report = build_dataset_from_files(files);
    assert!(matches!(report.outcome, Err(FatalError::EmptyDatasetError)));
    assert_eq!(report.skipped.len(), 2);
    assert!(matches!(report.skipped[0].reason, SkipReason::MetadataDecodeError));
    assert!(matches!(report.skipped[1].reason, SkipReason::IoError));
}

#[test]
fn no_files_at_all_is_fatal() {
    let report = build_dataset_from_files(Vec::new());
    assert!(matches!(report.outcome, Err(FatalError::EmptyDatasetError)));
    assert!(report.skipped.is_empty());
}
