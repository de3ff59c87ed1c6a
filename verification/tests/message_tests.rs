//! Tests of record building, tag extraction and serialization.

use exif_reader::message::{fold_tags, get_exif, ExtractionError, Message, PhotoData, TagKind};
use exif_reader::utils::DmsCoordinate;

fn dms_to_f32(c: &DmsCoordinate) -> f32 {
    let deg: f32 = c.degrees.parse().unwrap();
    let min: f32 = c.minutes.parse().unwrap();
    let sec: f32 = c.seconds.parse().unwrap();
    deg + min / 60.0 + sec / 3600.0
}

fn push_u16(out: &mut Vec<u8>, v: u16) {
    out.extend_from_slice(&v.to_le_bytes());
}

fn push_u32(out: &mut Vec<u8>, v: u32) {
    out.extend_from_slice(&v.to_le_bytes());
}

fn push_entry(out: &mut Vec<u8>, tag: u16, typ: u16, count: u32, value: u32) {
    push_u16(out, tag);
    push_u16(out, typ);
    push_u32(out, count);
    push_u32(out, value);
}

fn push_rational(out: &mut Vec<u8>, num: u32, den: u32) {
    push_u32(out, num);
    push_u32(out, den);
}

/// A minimal little-endian TIFF stream with a capture timestamp in the
/// primary image directory and the three GPS tags in its GPS directory.
fn tiff_with_tags(datetime: &[u8; 20]) -> Vec<u8> {
    let mut out: Vec<u8> = Vec::new();
    // Header: byte order, magic, offset of the primary directory.
    out.extend_from_slice(b"II");
    push_u16(&mut out, 42);
    push_u32(&mut out, 8);
    // Primary directory: the timestamp and the GPS directory pointer.
    let off_datetime: u32 = 38;
    let off_gps_ifd: u32 = 58;
    let off_lat: u32 = 136;
    let off_long: u32 = 160;
    let off_alt: u32 = 184;
    push_u16(&mut out, 2);
    push_entry(&mut out, 0x0132, 2, 20, off_datetime); // DateTime, ASCII
    push_entry(&mut out, 0x8825, 4, 1, off_gps_ifd); // GPS directory pointer
    push_u32(&mut out, 0);
    assert_eq!(out.len(), off_datetime as usize);
    out.extend_from_slice(datetime);
    // GPS directory.
    assert_eq!(out.len(), off_gps_ifd as usize);
    push_u16(&mut out, 6);
    push_entry(&mut out, 0x0001, 2, 2, u32::from_le_bytes(*b"N\0\0\0")); // GPSLatitudeRef
    push_entry(&mut out, 0x0002, 5, 3, off_lat); // GPSLatitude
    push_entry(&mut out, 0x0003, 2, 2, u32::from_le_bytes(*b"E\0\0\0")); // GPSLongitudeRef
    push_entry(&mut out, 0x0004, 5, 3, off_long); // GPSLongitude
    push_entry(&mut out, 0x0005, 1, 1, 0); // GPSAltitudeRef: above sea level
    push_entry(&mut out, 0x0006, 5, 1, off_alt); // GPSAltitude
    push_u32(&mut out, 0);
    // GPS latitude 45 deg 2 min 38.1768 sec.
    assert_eq!(out.len(), off_lat as usize);
    push_rational(&mut out, 45, 1);
    push_rational(&mut out, 2, 1);
    push_rational(&mut out, 381768, 10000);
    // GPS longitude 39 deg 1 min 55.5 sec.
    assert_eq!(out.len(), off_long as usize);
    push_rational(&mut out, 39, 1);
    push_rational(&mut out, 1, 1);
    push_rational(&mut out, 555, 10);
    // GPS altitude 27.813 meters.
    assert_eq!(out.len(), off_alt as usize);
    push_rational(&mut out, 27813, 1000);
    out
}

/// A minimal TIFF stream with none of the four recognised tags.
fn tiff_without_tags() -> Vec<u8> {
    let mut out: Vec<u8> = Vec::new();
    out.extend_from_slice(b"II");
    push_u16(&mut out, 42);
    push_u32(&mut out, 8);
    push_u16(&mut out, 1);
    push_entry(&mut out, 0x0100, 3, 1, 17); // ImageWidth, SHORT
    push_u32(&mut out, 0);
    out
}

#[test]
fn test_get_exif() {
    let filename = "test_1.tif";
    let filedata = get_exif(filename, Some(tiff_with_tags(b"2021:01:04 14:49:57\0")));
    assert!(matches!(filedata, Ok(_)));

    let metadata = filedata.unwrap();
    assert_eq!(metadata.name, filename);
    assert_eq!(metadata.path, filename);
    assert_eq!(metadata.timestamp, "2021-01-04T14:49:57+00:00");
    assert_eq!(metadata.altitude, "27.813");
    assert_eq!(metadata.altitude.parse::<f32>().unwrap(), 27.813);
    assert_eq!(metadata.lat.degrees, "45");
    assert_eq!(metadata.lat.minutes, "2");
    assert_eq!(metadata.lat.seconds, "38.1768");
    assert_eq!(metadata.long.degrees, "39");
    assert_eq!(metadata.long.minutes, "1");
    assert_eq!(metadata.long.seconds, "55.5");
}

#[test]
fn message_test_wrong_directory() {
    // A file that would not open yields an extraction error, never a record.
    let filedata = get_exif("../../test_data/test_1.jpg", None);
    assert!(matches!(filedata, Err(_)));
    assert_eq!(filedata.unwrap_err(), ExtractionError::Unreadable);
}

#[test]
fn test_get_exif_garbage_bytes() {
    // Bytes of no known container format are unreadable.
    let filedata = get_exif("noise.bin", Some(vec![1, 2, 3, 4, 5, 6, 7, 8]));
    assert_eq!(filedata.unwrap_err(), ExtractionError::Unreadable);
    let empty = get_exif("empty.bin", Some(Vec::new()));
    assert_eq!(empty.unwrap_err(), ExtractionError::Unreadable);
}

#[test]
fn test_get_exif_no_tags() {
    // A container with none of the recognised tags yields a record with
    // every default, not an error.
    let rec = get_exif("plain.tif", Some(tiff_without_tags())).unwrap();
    assert_eq!(dms_to_f32(&rec.lat), 0.0);
    assert_eq!(dms_to_f32(&rec.long), 0.0);
    assert_eq!(rec.altitude.parse::<f32>().unwrap(), 0.0);
    assert_eq!(rec.timestamp, "");
    assert_eq!(rec.name, "plain.tif");
    assert_eq!(rec.path, "plain.tif");
}

#[test]
fn test_get_exif_invalid_timestamp() {
    // The timestamp tag is rendered but names no real instant: the strict
    // parser makes that the file's extraction error.
    let filedata = get_exif("bad_time.tif", Some(tiff_with_tags(b"2021:02:30 10:00:00\0")));
    assert_eq!(filedata.unwrap_err(), ExtractionError::InvalidTimestamp);
}

#[test]
fn test_default() {
    let photo_data = PhotoData::default();

    assert_eq!(photo_data.altitude.parse::<f32>().unwrap(), 0.0);
    assert_eq!(dms_to_f32(&photo_data.long), 0.0);
    assert_eq!(dms_to_f32(&photo_data.lat), 0.0);
}

#[test]
fn test_fold_tags_defaults() {
    let rec = fold_tags("a/b.jpg", None, None, None, None).unwrap();
    assert_eq!(rec.name, "a/b.jpg");
    assert_eq!(rec.path, "a/b.jpg");
    assert_eq!(dms_to_f32(&rec.lat), 0.0);
    assert_eq!(dms_to_f32(&rec.long), 0.0);
    assert_eq!(rec.altitude, "0");
    assert_eq!(rec.timestamp, "");
}

#[test]
fn test_fold_tags_all_present() {
    let rec = fold_tags(
        "p.jpg",
        Some("53 deg 43 min 23.808 sec N".to_string()),
        Some("41 deg 42 min 34.9 sec E".to_string()),
        Some("27.813 meters above sea level".to_string()),
        Some("2021-01-04 14:49:57".to_string()),
    )
    .unwrap();
    assert_eq!(dms_to_f32(&rec.lat), 53.72328);
    assert_eq!(rec.long.seconds, "34.9");
    assert_eq!(rec.altitude, "27.813");
    assert_eq!(rec.timestamp, "2021-01-04T14:49:57+00:00");
}

#[test]
fn test_fold_tags_invalid_timestamp() {
    let r = fold_tags("p.jpg", None, None, None, Some("yesterday".to_string()));
    assert_eq!(r.unwrap_err(), ExtractionError::InvalidTimestamp);
}

#[test]
fn test_fold_tags_unrecognised_coordinate_resets() {
    // Coordinates reset to zero on an unrecognised rendering; the altitude
    // keeps its previous (default) value instead.  The asymmetry is the
    // system's own.
    let rec = fold_tags(
        "p.jpg",
        Some("garbled".to_string()),
        None,
        Some("very high".to_string()),
        None,
    )
    .unwrap();
    assert_eq!(dms_to_f32(&rec.lat), 0.0);
    assert_eq!(rec.altitude, "0");
}

#[test]
fn test_build_dispatch() {
    let mut rec = PhotoData::new("n".to_string(), "p".to_string());
    assert!(rec.build(TagKind::Latitude, "1 deg 2 min 3 sec N").is_ok());
    assert_eq!(rec.lat.degrees, "1");
    assert!(rec.build(TagKind::Longitude, "4 deg 5 min 6.5 sec W").is_ok());
    assert_eq!(rec.long.seconds, "6.5");
    assert!(rec.build(TagKind::Altitude, "12 meters").is_ok());
    assert_eq!(rec.altitude, "12");
    assert!(rec.build(TagKind::Timestamp, "2021-01-04 14:49:57").is_ok());
    assert_eq!(rec.timestamp, "2021-01-04T14:49:57+00:00");
    let err = rec.build(TagKind::Timestamp, "not a time");
    assert_eq!(err.unwrap_err(), ExtractionError::InvalidTimestamp);
    // The failed build left the record as it stood.
    assert_eq!(rec.timestamp, "2021-01-04T14:49:57+00:00");
}

#[test]
fn test_serialize_message() {
    let rec = fold_tags(
        "photos/img.jpg",
        Some("53 deg 43 min 23.808 sec N".to_string()),
        Some("41 deg 42 min 34.9 sec E".to_string()),
        Some("27.813 meters above sea level".to_string()),
        Some("2021-01-04 14:49:57".to_string()),
    )
    .unwrap();
    let m = Message::new(&rec);
    assert_eq!(m.key, "photos/img.jpg");
    assert_eq!(m.value.lat.degrees, rec.lat.degrees);
    assert_eq!(m.value.lat.seconds, rec.lat.seconds);
    assert_eq!(m.value.long.minutes, rec.long.minutes);
    assert_eq!(m.value.altitude, rec.altitude);
    assert_eq!(m.value.tmstmp, rec.timestamp);
}

/// Round trip: the body values of a serialized record, rendered to the wire
/// as JSON numbers and text and parsed back, reproduce the record's
/// latitude, longitude, altitude and timestamp exactly, within 32-bit float
/// representation.
#[test]
fn test_wire_round_trip() {
    let rec = fold_tags(
        "photos/img.jpg",
        Some("53 deg 43 min 23.808 sec N".to_string()),
        Some("41 deg 42 min 34.9 sec E".to_string()),
        Some("27.813 meters above sea level".to_string()),
        Some("2021-01-04 14:49:57".to_string()),
    )
    .unwrap();
    let m = Message::new(&rec);

    let lat = dms_to_f32(&m.value.lat);
    let long = dms_to_f32(&m.value.long);
    let altitude: f32 = m.value.altitude.parse().unwrap();

    let mut body = serde_json::Map::new();
    body.insert("lat".to_string(), serde_json::Value::from(lat));
    body.insert("long".to_string(), serde_json::Value::from(long));
    body.insert("altitude".to_string(), serde_json::Value::from(altitude));
    body.insert(
        "tmstmp".to_string(),
        serde_json::Value::from(m.value.tmstmp.as_str()),
    );
    let wire = serde_json::to_string(&serde_json::Value::Object(body)).unwrap();

    let back: serde_json::Value = serde_json::from_str(&wire).unwrap();
    assert_eq!(back["lat"].as_f64().unwrap() as f32, lat);
    assert_eq!(back["long"].as_f64().unwrap() as f32, long);
    assert_eq!(back["altitude"].as_f64().unwrap() as f32, altitude);
    assert_eq!(back["tmstmp"].as_str().unwrap(), rec.timestamp);
    assert_eq!(back["lat"].as_f64().unwrap() as f32, dms_to_f32(&rec.lat));
}
