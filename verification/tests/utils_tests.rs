//! Tests of the coordinate, altitude and timestamp normalizers.

use chrono::{NaiveDateTime, TimeZone, Utc};
use exif_reader::utils::{convert_altitude, convert_coordinate, convert_time_to_iso_format, DmsCoordinate};
use regex::Regex;

/// Decimal degrees of a parsed coordinate, combined the way the wire format
/// consumes it: degrees plus minutes over sixty plus seconds over
/// thirty-six hundred, in 32-bit floats.
fn dms_to_f32(c: &DmsCoordinate) -> f32 {
    let deg: f32 = c.degrees.parse().unwrap();
    let min: f32 = c.minutes.parse().unwrap();
    let sec: f32 = c.seconds.parse().unwrap();
    deg + min / 60.0 + sec / 3600.0
}

#[test]
fn test_coord() {
    let raw_coord = vec![
        "53 deg 43 min 23.808 sec N",
        "41 deg 42 min 34.9 sec N",
    ];

    assert_eq!(dms_to_f32(&convert_coordinate(raw_coord[0])), 53.72328);
}

#[test]
fn test_wrong_coord() {
    let raw_coords = vec![
        ("53 deg 43 min 23.808 sec N", 53.72328),
        ("53", 0.0),
        ("53 deg", 0.0),
        ("deg 43 min 23.808 sec N", 0.0),
        ("53 dg 43 min 23.808 sec N", 0.0),
        ("", 0.0),
        ("53 dg 43 min 23.808 sec", 0.0),
        ("53 dg 43 min 23.808 N", 0.0),
        ("53 dg 43 min 23 sec N", 0.0),
        ("53 dg 43 min .808 sec N", 0.0),
    ];

    for raw_coord in raw_coords {
        let coord = dms_to_f32(&convert_coordinate(raw_coord.0));
        assert_eq!(coord, raw_coord.1);
    }
}

#[test]
fn test_coord_groups() {
    let c = convert_coordinate("53 deg 43 min 23.808 sec N");
    assert_eq!(c.degrees, "53");
    assert_eq!(c.minutes, "43");
    assert_eq!(c.seconds, "23.808");

    // The seconds numeral may be a whole number, and trailing text is ignored.
    let c = convert_coordinate("41 deg 42 min 34 sec S");
    assert_eq!(c.seconds, "34");

    // The hemisphere letter never affects the numerals.
    let north = convert_coordinate("10 deg 2 min 3.5 sec N");
    let south = convert_coordinate("10 deg 2 min 3.5 sec S");
    assert_eq!(north.degrees, south.degrees);
    assert_eq!(north.minutes, south.minutes);
    assert_eq!(north.seconds, south.seconds);

    // A non-match collapses to the zero coordinate.
    let z = convert_coordinate("53 deg 43 min . sec N");
    assert_eq!(z.degrees, "0");
    assert_eq!(z.minutes, "0");
    assert_eq!(z.seconds, "0");
}

#[test]
fn test_coord_agrees_with_regex() {
    let re = Regex::new(r"^(\d+) deg (\d+) min (\d*[.]?\d+)").unwrap();
    let inputs = vec![
        "53 deg 43 min 23.808 sec N",
        "41 deg 42 min 34.9 sec N",
        "0 deg 0 min 0 sec",
        "7 deg 8 min .5 sec W",
        "7 deg 8 min 9. sec W",
        "12 deg 34 min 56.78.9 sec E",
        "53",
        "53 deg",
        "deg 43 min 23.808 sec N",
        "",
        "9 deg 9 min . N",
    ];
    for input in inputs {
        let parsed = convert_coordinate(input);
        match re.captures(input) {
            Some(caps) => {
                assert_eq!(parsed.degrees, &caps[1], "degrees of {:?}", input);
                assert_eq!(parsed.minutes, &caps[2], "minutes of {:?}", input);
                assert_eq!(parsed.seconds, &caps[3], "seconds of {:?}", input);
            }
            None => {
                assert_eq!(parsed.degrees, "0", "no match for {:?}", input);
                assert_eq!(parsed.minutes, "0");
                assert_eq!(parsed.seconds, "0");
            }
        }
    }
}

#[test]
fn test_altitude() {
    assert_eq!(
        convert_altitude("27.813 meters above sea level").as_deref(),
        Some("27.813")
    );
    assert_eq!(convert_altitude("27.813").as_deref(), Some("27.813"));
    assert_eq!(convert_altitude("0.5 meters below sea level").as_deref(), Some("0.5"));
    assert_eq!(convert_altitude(".808 m").as_deref(), Some(".808"));
    // A dot with no digits after it ends the numeral.
    assert_eq!(convert_altitude("23. m").as_deref(), Some("23"));
    assert_eq!(convert_altitude("0..5").as_deref(), Some("0"));
    // No leading numeral: the caller leaves its previous value unchanged.
    assert_eq!(convert_altitude("meters"), None);
    assert_eq!(convert_altitude(""), None);
    assert_eq!(convert_altitude(". m"), None);
    assert_eq!(convert_altitude("-5 m"), None);
}

#[test]
fn test_convert_time() {
    let times = vec![
        ("2021-01-04 14:49:57", "2021-01-04T14:49:57+00:00"),
        ("2023-01-04 14:49:57", "2023-01-04T14:49:57+00:00"),
        ("2021-02-04 14:49:57", "2021-02-04T14:49:57+00:00"),
        ("2021-02-07 14:49:57", "2021-02-07T14:49:57+00:00"),
        ("2021-02-04 15:49:57", "2021-02-04T15:49:57+00:00"),
        ("2021-02-04 14:59:57", "2021-02-04T14:59:57+00:00"),
        ("2021-02-04 14:59:03", "2021-02-04T14:59:03+00:00"),
    ];

    for time in times {
        let iso_time = convert_time_to_iso_format(time.0).unwrap();
        assert_eq!(iso_time, time.1)
    }
}

#[test]
fn test_convert_time_rejects() {
    let bad = vec![
        "",
        "2021-01-04",
        "2021-1-4 14:49:57",
        "2021-01-04T14:49:57",
        "2021-01-04 14:49:57 ",
        " 2021-01-04 14:49:57",
        "2021-13-01 00:00:00",
        "2021-00-01 00:00:00",
        "2021-01-00 00:00:00",
        "2021-01-32 00:00:00",
        "2021-02-29 00:00:00",
        "2021-04-31 00:00:00",
        "2021-01-04 24:00:00",
        "2021-01-04 14:60:57",
        "2021-01-04 14:49:61",
        "2021-01-04 14-49-57",
        "date is unknown.....",
    ];
    for input in bad {
        assert_eq!(convert_time_to_iso_format(input), None, "accepted {:?}", input);
    }
}

#[test]
fn test_convert_time_leap_second() {
    // A second of 60 renders a leap second and is accepted.
    assert_eq!(
        convert_time_to_iso_format("2016-12-31 23:59:60").as_deref(),
        Some("2016-12-31T23:59:60+00:00")
    );
}

#[test]
fn test_convert_time_leap_years() {
    assert_eq!(
        convert_time_to_iso_format("2020-02-29 12:00:00").as_deref(),
        Some("2020-02-29T12:00:00+00:00")
    );
    assert_eq!(
        convert_time_to_iso_format("2000-02-29 12:00:00").as_deref(),
        Some("2000-02-29T12:00:00+00:00")
    );
    // A century year that is no leap year.
    assert_eq!(convert_time_to_iso_format("2100-02-29 12:00:00"), None);
    assert_eq!(convert_time_to_iso_format("1900-02-29 12:00:00"), None);
}

#[test]
fn test_convert_time_agrees_with_chrono() {
    let samples = vec![
        "2021-01-04 14:49:57",
        "2023-01-04 14:49:57",
        "2020-02-29 12:00:00",
        "2000-02-29 12:00:00",
        "0001-01-01 00:00:00",
        "9999-12-31 23:59:59",
        "2016-12-31 23:59:60",
    ];
    for s in samples {
        let parsed = NaiveDateTime::parse_from_str(s, "%Y-%m-%d %H:%M:%S").unwrap();
        let expected = Utc.from_utc_datetime(&parsed).to_rfc3339();
        assert_eq!(convert_time_to_iso_format(s).unwrap(), expected, "for {:?}", s);
    }
    // Exact-shape strings whose fields name no real instant fail both ways.
    let bad = vec!["2021-02-30 10:00:00", "2100-02-29 12:00:00", "2021-01-04 24:00:00"];
    for s in bad {
        assert!(NaiveDateTime::parse_from_str(s, "%Y-%m-%d %H:%M:%S").is_err());
        assert_eq!(convert_time_to_iso_format(s), None);
    }
}
