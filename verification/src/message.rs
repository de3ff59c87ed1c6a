//! The per-file record, the fixed tag set, the extraction step and the wire
//! message.
//!
//! A [`PhotoData`] record exists for every file whose metadata container
//! opened, even when no recognised tag is present: absent tags keep their
//! zero or empty defaults.  [`get_exif`] reads the container, renders the
//! four recognised tags and folds them into a record; [`Message::new`] turns
//! a record into the keyed wire message.

use vstd::prelude::*;

use crate::utils::{
    converted_coordinate, convert_altitude, convert_coordinate, convert_time_to_iso_format,
    decimal_run, digit_run, dms_is_zero, iso_of, valid_timestamp, DmsCoordinate,
};

verus! {

/// The closed set of recognised metadata tags.  Any other tag of the
/// container is never consulted.
#[derive(Clone, Copy, Debug, PartialEq, Eq, Structural)]
pub enum TagKind {
    /// The GPS latitude tag.
    Latitude,
    /// The GPS longitude tag.
    Longitude,
    /// The GPS altitude tag.
    Altitude,
    /// The capture timestamp tag.
    Timestamp,
}

/// Why one file yielded no record.  Extraction failures are per-file and
/// never abort a scan.
#[derive(Clone, Copy, Debug, PartialEq, Eq, Structural)]
pub enum ExtractionError {
    /// The file could not be opened or holds no parseable metadata container.
    Unreadable,
    /// The capture timestamp tag is present but its rendering is not exactly
    /// `YYYY-MM-DD HH:MM:SS`.
    InvalidTimestamp,
}

/// The normalized per-file record.  Coordinates keep their parsed
/// degrees-minutes-seconds numerals; the timestamp is the zoned rendering or
/// empty when the tag is absent.
#[derive(Debug)]
pub struct PhotoData {
    /// GPS latitude; the zero coordinate when absent or unrecognised.
    pub lat: DmsCoordinate,
    /// GPS longitude; the zero coordinate when absent or unrecognised.
    pub long: DmsCoordinate,
    /// Altitude in meters as a decimal numeral; `0` when absent.
    pub altitude: String,
    /// The file's path; never derived independently of `path`.
    pub name: String,
    /// The file's path.
    pub path: String,
    /// Capture time as `YYYY-MM-DDTHH:MM:SS+00:00`; empty when absent.
    pub timestamp: String,
}

/// A record as it stands right after a file opened: zero coordinates, zero
/// altitude, empty timestamp, and the given name and path.
pub open spec fn fresh_record(p: PhotoData, name: Seq<char>, path: Seq<char>) -> bool {
    &&& dms_is_zero(p.lat)
    &&& dms_is_zero(p.long)
    &&& p.altitude@ =~= seq!['0']
    &&& p.name@ == name
    &&& p.path@ == path
    &&& p.timestamp@ =~= Seq::<char>::empty()
}

/// Every field of `b` other than `lat` is the same as in `a`.
pub open spec fn unchanged_but_lat(a: PhotoData, b: PhotoData) -> bool {
    &&& b.long == a.long
    &&& b.altitude == a.altitude
    &&& b.name == a.name
    &&& b.path == a.path
    &&& b.timestamp == a.timestamp
}

/// Every field of `b` other than `long` is the same as in `a`.
pub open spec fn unchanged_but_long(a: PhotoData, b: PhotoData) -> bool {
    &&& b.lat == a.lat
    &&& b.altitude == a.altitude
    &&& b.name == a.name
    &&& b.path == a.path
    &&& b.timestamp == a.timestamp
}

/// Every field of `b` other than `altitude` is the same as in `a`.
pub open spec fn unchanged_but_altitude(a: PhotoData, b: PhotoData) -> bool {
    &&& b.lat == a.lat
    &&& b.long == a.long
    &&& b.name == a.name
    &&& b.path == a.path
    &&& b.timestamp == a.timestamp
}

/// Every field of `b` other than `timestamp` is the same as in `a`.
pub open spec fn unchanged_but_timestamp(a: PhotoData, b: PhotoData) -> bool {
    &&& b.lat == a.lat
    &&& b.long == a.long
    &&& b.altitude == a.altitude
    &&& b.name == a.name
    &&& b.path == a.path
}

/// What the altitude field holds after folding `text`: the leading decimal
/// numeral of the rendering when one is there, the previous value otherwise.
pub open spec fn folded_altitude(text: Seq<char>, before: Seq<char>, after: Seq<char>) -> bool {
    if decimal_run(text) > 0 {
        after == text.subrange(0, decimal_run(text) as int)
    } else {
        after == before
    }
}

impl Default for PhotoData {
    /// A placeholder record: zero numeric fields, the literal `name` and
    /// `path`, and an empty timestamp.
    fn default() -> (r: PhotoData)
        ensures
            fresh_record(r, "name"@, "path"@),
    {
        PhotoData {
            lat: DmsCoordinate::zero(),
            long: DmsCoordinate::zero(),
            altitude: zero_numeral(),
            name: String::from_str("name"),
            path: String::from_str("path"),
            timestamp: String::new(),
        }
    }
}

/// The one-character numeral `0`.
fn zero_numeral() -> (r: String)
    ensures
        r@ =~= seq!['0'],
{
    proof {
        reveal_strlit("0");
    }
    String::from_str("0")
}

impl PhotoData {
    /// A fresh record for the file at `path`, before any tag is folded in.
    pub fn new(name: String, path: String) -> (r: PhotoData)
        ensures
            fresh_record(r, name@, path@),
    {
        PhotoData {
            lat: DmsCoordinate::zero(),
            long: DmsCoordinate::zero(),
            altitude: zero_numeral(),
            name,
            path,
            timestamp: String::new(),
        }
    }

    /// Stores the converted latitude; an unrecognised rendering resets it to
    /// the zero coordinate.
    pub fn set_lat(&mut self, row_lat: &str)
        ensures
            converted_coordinate(row_lat@, final (self).lat),
            unchanged_but_lat(*old(self), *final (self)),
    {
        self.lat = convert_coordinate(row_lat);
    }

    /// Stores the converted longitude; an unrecognised rendering resets it to
    /// the zero coordinate.
    pub fn set_long(&mut self, row_long: &str)
        ensures
            converted_coordinate(row_long@, final (self).long),
            unchanged_but_long(*old(self), *final (self)),
    {
        self.long = convert_coordinate(row_long);
    }

    /// Stores the leading decimal numeral of the rendering; unlike the
    /// coordinates, an unrecognised rendering leaves the previous value
    /// unchanged.
    pub fn set_altitude(&mut self, row_altitude: &str)
        ensures
            folded_altitude(row_altitude@, old(self).altitude@, final (self).altitude@),
            unchanged_but_altitude(*old(self), *final (self)),
    {
        match convert_altitude(row_altitude) {
            Some(text) => {
                self.altitude = text;
            },
            None => (),
        }
    }

    /// Folds one rendered tag into the record.  Only the timestamp can fail:
    /// a rendering that is not exactly `YYYY-MM-DD HH:MM:SS` leaves the
    /// record unchanged and is the file's extraction error.
    pub fn build(&mut self, tag: TagKind, value: &str) -> (r: Result<(), ExtractionError>)
        ensures
            tag is Latitude ==> r is Ok && converted_coordinate(value@, final (self).lat)
                && unchanged_but_lat(*old(self), *final (self)),
            tag is Longitude ==> r is Ok && converted_coordinate(value@, final (self).long)
                && unchanged_but_long(*old(self), *final (self)),
            tag is Altitude ==> r is Ok && folded_altitude(
                value@,
                old(self).altitude@,
                final (self).altitude@,
            ) && unchanged_but_altitude(*old(self), *final (self)),
            tag is Timestamp && valid_timestamp(value@) ==> r is Ok && final (self).timestamp@
                == iso_of(value@) && unchanged_but_timestamp(*old(self), *final (self)),
            tag is Timestamp && !valid_timestamp(value@) ==> r == Err::<(), ExtractionError>(
                ExtractionError::InvalidTimestamp,
            ) && *final (self) == *old(self),
    {
        match tag {
            TagKind::Latitude => {
                self.set_lat(value);
                Ok(())
            },
            TagKind::Longitude => {
                self.set_long(value);
                Ok(())
            },
            TagKind::Altitude => {
                self.set_altitude(value);
                Ok(())
            },
            TagKind::Timestamp => {
                match convert_time_to_iso_format(value) {
                    Some(iso) => {
                        self.timestamp = iso;
                        Ok(())
                    },
                    None => Err(ExtractionError::InvalidTimestamp),
                }
            },
        }
    }
}

/// The text of an optional rendering.
pub open spec fn text_view(t: Option<String>) -> Option<Seq<char>> {
    match t {
        Some(s) => Some(s@),
        None => None,
    }
}

/// What folding an optional latitude or longitude rendering yields: the
/// conversion of the rendering when the tag was present, the zero coordinate
/// it started with otherwise.
pub open spec fn folded_coordinate(text: Option<Seq<char>>, c: DmsCoordinate) -> bool {
    match text {
        Some(t) => converted_coordinate(t, c),
        None => dms_is_zero(c),
    }
}

/// Builds the record for the file at `path` out of the four rendered tags,
/// each `None` when the tag is not in the container.  Fails exactly when a
/// timestamp rendering is present and is not a valid `YYYY-MM-DD HH:MM:SS`
/// instant; a record with no tag at all is a valid result, not an error.
pub fn fold_tags(
    path: &str,
    lat_text: Option<String>,
    long_text: Option<String>,
    altitude_text: Option<String>,
    timestamp_text: Option<String>,
) -> (r: Result<PhotoData, ExtractionError>)
    ensures
        r is Err <==> (timestamp_text matches Some(t) && !valid_timestamp(t@)),
        r matches Err(e) ==> e == ExtractionError::InvalidTimestamp,
        r matches Ok(rec) ==> rec.name@ == path@ && rec.path@ == path@ && folded_coordinate(
            text_view(lat_text),
            rec.lat,
        ) && folded_coordinate(text_view(long_text), rec.long) && folded_altitude_tag(
            text_view(altitude_text),
            rec.altitude@,
        ) && folded_timestamp_tag(text_view(timestamp_text), rec.timestamp@),
        r matches Ok(rec) ==> record_well_formed(rec),
{
    let mut rec = PhotoData::new(String::from_str(path), String::from_str(path));
    if let Some(t) = &lat_text {
        if let Err(e) = rec.build(TagKind::Latitude, t.as_str()) {
            return Err(e);
        }
    }
    if let Some(t) = &long_text {
        if let Err(e) = rec.build(TagKind::Longitude, t.as_str()) {
            return Err(e);
        }
    }
    if let Some(t) = &altitude_text {
        if let Err(e) = rec.build(TagKind::Altitude, t.as_str()) {
            return Err(e);
        }
    }
    if let Some(t) = &timestamp_text {
        if let Err(e) = rec.build(TagKind::Timestamp, t.as_str()) {
            return Err(e);
        }
    }
    proof {
        lemma_folded_record_well_formed(
            rec,
            text_view(lat_text),
            text_view(long_text),
            text_view(altitude_text),
            text_view(timestamp_text),
        );
    }
    Ok(rec)
}

/// What the altitude field of a fresh record holds after folding an optional
/// rendering: its leading decimal numeral, or the `0` default.
pub open spec fn folded_altitude_tag(text: Option<Seq<char>>, a: Seq<char>) -> bool {
    match text {
        Some(t) => if decimal_run(t) > 0 {
            a == t.subrange(0, decimal_run(t) as int)
        } else {
            a =~= seq!['0']
        },
        None => a =~= seq!['0'],
    }
}

/// What the timestamp field holds after folding an optional valid rendering:
/// its zoned form, or empty.
pub open spec fn folded_timestamp_tag(text: Option<Seq<char>>, t: Seq<char>) -> bool {
    match text {
        Some(v) => t == iso_of(v),
        None => t =~= Seq::<char>::empty(),
    }
}

/// Every field of the record is consumable as it stands: the coordinates are
/// whole numerals, the altitude a whole decimal numeral, and the timestamp
/// either empty or a full zoned rendering.
pub open spec fn record_well_formed(p: PhotoData) -> bool {
    &&& crate::utils::dms_well_formed(p.lat)
    &&& crate::utils::dms_well_formed(p.long)
    &&& p.altitude@.len() > 0
    &&& decimal_run(p.altitude@) == p.altitude@.len()
    &&& (p.timestamp@.len() == 0 || p.timestamp@.len() == 25)
}

/// A record folded out of any four renderings is well formed.
pub proof fn lemma_folded_record_well_formed(
    rec: PhotoData,
    lat_text: Option<Seq<char>>,
    long_text: Option<Seq<char>>,
    altitude_text: Option<Seq<char>>,
    timestamp_text: Option<Seq<char>>,
)
    requires
        folded_coordinate(lat_text, rec.lat),
        folded_coordinate(long_text, rec.long),
        folded_altitude_tag(altitude_text, rec.altitude@),
        folded_timestamp_tag(timestamp_text, rec.timestamp@),
        timestamp_text matches Some(v) ==> valid_timestamp(v),
    ensures
        record_well_formed(rec),
{
    match lat_text {
        Some(t) => crate::utils::lemma_converted_coordinate_well_formed(t, rec.lat),
        None => crate::utils::lemma_converted_coordinate_well_formed(Seq::empty(), rec.lat),
    }
    match long_text {
        Some(t) => crate::utils::lemma_converted_coordinate_well_formed(t, rec.long),
        None => crate::utils::lemma_converted_coordinate_well_formed(Seq::empty(), rec.long),
    }
    match altitude_text {
        Some(t) => {
            if decimal_run(t) > 0 {
                crate::utils::lemma_decimal_prefix_self(t);
                crate::utils::lemma_decimal_run_bounds(t);
            } else {
                lemma_zero_numeral_is_decimal(rec.altitude@);
            }
        },
        None => {
            lemma_zero_numeral_is_decimal(rec.altitude@);
        },
    }
}

/// The one-character numeral `0` is a whole decimal numeral.
proof fn lemma_zero_numeral_is_decimal(a: Seq<char>)
    requires
        a =~= seq!['0'],
    ensures
        a.len() > 0,
        decimal_run(a) == a.len(),
{
    reveal_with_fuel(digit_run, 2);
    assert(a.drop_first() =~= Seq::<char>::empty());
    assert(digit_run(a) == 1);
}

/// A file whose container held none of the four recognised tags still yields
/// a record, not an error, and that record keeps every default: zero
/// coordinates, zero altitude, empty timestamp, and the file's path as both
/// name and path.
pub proof fn lemma_no_tags_yield_default_record(rec: PhotoData, path: Seq<char>)
    requires
        rec.name@ == path,
        rec.path@ == path,
        folded_coordinate(None, rec.lat),
        folded_coordinate(None, rec.long),
        folded_altitude_tag(None, rec.altitude@),
        folded_timestamp_tag(None, rec.timestamp@),
    ensures
        fresh_record(rec, path, path),
{
}

/// The bytes hold a metadata container (TIFF, JPEG, HEIF, PNG or WebP) that
/// the container reader parses.  Parsing is a function of the bytes alone.
pub uninterp spec fn container_parses(bytes: Seq<u8>) -> bool;

/// The rendering, with its declared unit, of one recognised tag of the
/// parseable container in `bytes`, or `None` when the container does not
/// hold the tag.  The rendering is a function of the bytes alone.
pub uninterp spec fn rendered_tag(bytes: Seq<u8>, tag: TagKind) -> Option<Seq<char>>;

/// The parseable container in `bytes` renders a capture timestamp, but the
/// rendering names no instant: the file's extraction fails on it.
pub open spec fn rendered_timestamp_invalid(bytes: Seq<u8>) -> bool {
    rendered_tag(bytes, TagKind::Timestamp) matches Some(t) && !valid_timestamp(t)
}

/// Relies on exif::Reader::read_from_container to parse the container, and
/// on exif::Exif::get_field with the primary image index and
/// exif::Field::display_value().with_unit(..) to render each recognised tag.
/// Both read nothing but the bytes, so the outcome is named: `None` iff the
/// container does not parse, else the four renderings, absent tags as
/// `None`.
#[verifier::external_body]
fn read_tag_texts(bytes: &Vec<u8>) -> (r: Option<
    (Option<String>, Option<String>, Option<String>, Option<String>),
>)
    ensures
        r is Some <==> container_parses(bytes@),
        r matches Some(texts) ==> rendered_tag(bytes@, TagKind::Latitude) == text_view(texts.0)
            && rendered_tag(bytes@, TagKind::Longitude) == text_view(texts.1) && rendered_tag(
            bytes@,
            TagKind::Altitude,
        ) == text_view(texts.2) && rendered_tag(bytes@, TagKind::Timestamp) == text_view(texts.3),
{
    let mut cursor = std::io::Cursor::new(bytes.as_slice());
    let data = exif::Reader::new().read_from_container(&mut cursor).ok()?;
    let text = |tag: exif::Tag| {
        data.get_field(tag, exif::In::PRIMARY).map(
            |f| f.display_value().with_unit(&data).to_string(),
        )
    };
    Some(
        (
            text(exif::Tag::GPSLatitude),
            text(exif::Tag::GPSLongitude),
            text(exif::Tag::GPSAltitude),
            text(exif::Tag::DateTime),
        ),
    )
}

/// Extracts the normalized record of one file: parses the metadata container
/// out of the file's bytes (`None` stands for a file that would not open),
/// renders the four recognised tags, and folds them in.  `Unreadable` comes
/// exactly for the unopenable or unparseable file, `InvalidTimestamp`
/// exactly for a parseable one whose rendered timestamp is no instant;
/// every other file yields its record, each field pinned to the container's
/// named renderings.
pub fn get_exif(path: &str, content: Option<Vec<u8>>) -> (r: Result<PhotoData, ExtractionError>)
    ensures
        content is None ==> r == Err::<PhotoData, ExtractionError>(ExtractionError::Unreadable),
        content matches Some(b) && !container_parses(b@) ==> r == Err::<
            PhotoData,
            ExtractionError,
        >(ExtractionError::Unreadable),
        content matches Some(b) ==> container_parses(b@) && r is Err
            ==> rendered_timestamp_invalid(b@) && r == Err::<PhotoData, ExtractionError>(
            ExtractionError::InvalidTimestamp,
        ),
        content matches Some(b) ==> container_parses(b@) && rendered_timestamp_invalid(b@) ==> r
            is Err,
        r matches Ok(rec) ==> rec.name@ == path@ && rec.path@ == path@ && record_well_formed(rec),
        content matches Some(b) ==> r matches Ok(rec) ==> folded_coordinate(
            rendered_tag(b@, TagKind::Latitude),
            rec.lat,
        ) && folded_coordinate(rendered_tag(b@, TagKind::Longitude), rec.long)
            && folded_altitude_tag(rendered_tag(b@, TagKind::Altitude), rec.altitude@)
            && folded_timestamp_tag(rendered_tag(b@, TagKind::Timestamp), rec.timestamp@),
{
    let bytes = match content {
        Some(b) => b,
        None => {
            return Err(ExtractionError::Unreadable);
        },
    };
    let texts = match read_tag_texts(&bytes) {
        Some(t) => t,
        None => {
            return Err(ExtractionError::Unreadable);
        },
    };
    let (lat_text, long_text, altitude_text, timestamp_text) = texts;
    fold_tags(path, lat_text, long_text, altitude_text, timestamp_text)
}

/// The structured body of one wire message: the four normalized fields of
/// the record, verbatim.  The name and path are not in the body; the path
/// travels as the message key.
#[derive(Debug)]
pub struct MessageBody {
    /// Latitude numerals, verbatim from the record.
    pub lat: DmsCoordinate,
    /// Longitude numerals, verbatim from the record.
    pub long: DmsCoordinate,
    /// Altitude numeral, verbatim from the record.
    pub altitude: String,
    /// Zoned capture time, verbatim from the record.
    pub tmstmp: String,
}

/// One wire message: the file's path as the key and the structured body.
#[derive(Debug)]
pub struct Message {
    /// The record's map key: the file's path.
    pub key: String,
    /// The structured body.
    pub value: MessageBody,
}

/// `m` is the serialization of `rec`: the key is the record's path and every
/// body field is the record's field, verbatim.
pub open spec fn serialized(rec: PhotoData, m: Message) -> bool {
    &&& m.key@ == rec.path@
    &&& m.value.lat == rec.lat
    &&& m.value.long == rec.long
    &&& m.value.altitude@ == rec.altitude@
    &&& m.value.tmstmp@ == rec.timestamp@
}

impl Message {
    /// Serializes one record into its wire message.  Total: every record
    /// serializes, and nothing of the four body fields is altered, so the
    /// body values re-read from the message are the record's own.
    pub fn new(data: &PhotoData) -> (m: Message)
        ensures
            serialized(*data, m),
    {
        Message {
            key: data.path.clone(),
            value: MessageBody {
                lat: data.lat.duplicate(),
                long: data.long.duplicate(),
                altitude: data.altitude.clone(),
                tmstmp: data.timestamp.clone(),
            },
        }
    }
}

} // verus!
