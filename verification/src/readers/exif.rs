//! Image metadata from EXIF fields: dimensions (with orientation and the WebP
//! bitstream as fallbacks), capture and modification times, camera, GPS.
use vstd::prelude::*;
use vstd::utf8::{decode_utf8, encode_utf8_decode_utf8, valid_utf8};
use crate::api::{ExifGps, Location, MediaInfo};
use crate::bytes::{le_u16, le_u24, le_u32, spec_le_u16, spec_le_u24, spec_le_u32};
use crate::mime::{bytes4, eq4, MimeType};
use crate::text::{utf8_nonempty, utf8_str, utf8_text};

verus! {

/// The EXIF tags that the reader looks at (primary image directory).
#[derive(Clone, Copy, Debug, PartialEq, Eq, Structural)]
pub enum ExifTag {
    ImageWidth,
    ImageLength,
    Orientation,
    Make,
    Model,
    DateTime,
    DateTimeOriginal,
    DateTimeDigitized,
    GpsLatitudeRef,
    GpsLatitude,
    GpsLongitudeRef,
    GpsLongitude,
    GpsAltitudeRef,
    GpsAltitude,
}

/// An unsigned rational number.
#[derive(Clone, Copy, Debug, PartialEq, Eq, Structural)]
pub struct Rational {
    pub num: u32,
    pub denom: u32,
}

/// The value of an EXIF field, for the value types the reader looks at.
pub enum ExifValue {
    Byte(Vec<u8>),
    /// Strings, each without its trailing NULs.
    Ascii(Vec<Vec<u8>>),
    Short(Vec<u16>),
    Long(Vec<u32>),
    Rational(Vec<Rational>),
    /// Any other value type.
    Other,
}

/// One EXIF field of the primary image.
pub struct ExifField {
    pub tag: ExifTag,
    pub value: ExifValue,
}

/// The EXIF fields of the primary image of a file.
pub struct ExifRecord {
    pub fields: Vec<ExifField>,
}

/// An EXIF value as plain sequences.
pub enum ExifValueView {
    Byte(Seq<u8>),
    Ascii(Seq<Seq<u8>>),
    Short(Seq<u16>),
    Long(Seq<u32>),
    Rational(Seq<Rational>),
    Other,
}

impl View for ExifValue {
    type V = ExifValueView;

    open spec fn view(&self) -> ExifValueView {
        match self {
            ExifValue::Byte(v) => ExifValueView::Byte(v@),
            ExifValue::Ascii(v) => ExifValueView::Ascii(Seq::new(v@.len(), |i: int| v@[i]@)),
            ExifValue::Short(v) => ExifValueView::Short(v@),
            ExifValue::Long(v) => ExifValueView::Long(v@),
            ExifValue::Rational(v) => ExifValueView::Rational(v@),
            ExifValue::Other => ExifValueView::Other,
        }
    }
}

/// A record is seen as the value of each tag it holds (the first field
/// with that tag, should there be several).
impl View for ExifRecord {
    type V = Map<ExifTag, ExifValueView>;

    open spec fn view(&self) -> Map<ExifTag, ExifValueView> {
        Map::new(
            |t: ExifTag| field_of(*self, t) is Some,
            |t: ExifTag| field_of(*self, t).unwrap().value@,
        )
    }
}

/// The value of `tag` in `fields`, if it has one.
pub open spec fn field_value(fields: Map<ExifTag, ExifValueView>, tag: ExifTag) -> Option<
    ExifValueView,
> {
    if fields.dom().contains(tag) {
        Some(fields[tag])
    } else {
        None
    }
}

/// The first field of `fields[i..]` with tag `tag`.
pub open spec fn find_field(fields: Seq<ExifField>, tag: ExifTag, i: int) -> Option<ExifField>
    decreases fields.len() - i,
{
    if i < 0 || i >= fields.len() {
        None
    } else if fields[i].tag == tag {
        Some(fields[i])
    } else {
        find_field(fields, tag, i + 1)
    }
}

/// The field with tag `tag` (the first, should there be several).
pub open spec fn field_of(exif: ExifRecord, tag: ExifTag) -> Option<ExifField> {
    find_field(exif.fields@, tag, 0)
}

/// Look up the field with a given tag.
pub fn get_field(exif: &ExifRecord, tag: ExifTag) -> (r: Option<&ExifField>)
    ensures
        match r {
            Some(f) => field_of(*exif, tag) == Some(*f),
            None => field_of(*exif, tag) is None,
        },
{
    let mut i: usize = 0;
    while i < exif.fields.len()
        invariant
            i <= exif.fields@.len(),
            find_field(exif.fields@, tag, i as int) == field_of(*exif, tag),
        decreases exif.fields@.len() - i,
    {
        if exif.fields[i].tag == tag {
            return Some(&exif.fields[i]);
        }
        i += 1;
    }
    None
}

/// The first value of a LONG or SHORT field, as a `u32`.
pub open spec fn field_u32(fields: Map<ExifTag, ExifValueView>, tag: ExifTag) -> Option<u32> {
    match field_value(fields, tag) {
        Some(ExifValueView::Long(v)) => if v.len() > 0 {
            Some(v[0])
        } else {
            None
        },
        Some(ExifValueView::Short(v)) => if v.len() > 0 {
            Some(v[0] as u32)
        } else {
            None
        },
        _ => None,
    }
}

pub fn read_u32(exif: &ExifRecord, tag: ExifTag) -> (r: Option<u32>)
    ensures
        r == field_u32(exif@, tag),
{
    match get_field(exif, tag) {
        None => None,
        Some(f) => match &f.value {
            ExifValue::Long(v) => if v.len() > 0 {
                Some(v[0])
            } else {
                None
            },
            ExifValue::Short(v) => if v.len() > 0 {
                Some(v[0] as u32)
            } else {
                None
            },
            _ => None,
        },
    }
}

/// The bytes of the first string of an ASCII field.
pub open spec fn field_ascii(fields: Map<ExifTag, ExifValueView>, tag: ExifTag) -> Option<Seq<u8>> {
    match field_value(fields, tag) {
        Some(ExifValueView::Ascii(v)) => if v.len() > 0 {
            Some(v[0])
        } else {
            None
        },
        _ => None,
    }
}

fn first_ascii<'a>(exif: &'a ExifRecord, tag: ExifTag) -> (r: Option<&'a Vec<u8>>)
    ensures
        match r {
            Some(b) => field_ascii(exif@, tag) == Some(b@),
            None => field_ascii(exif@, tag) is None,
        },
{
    match get_field(exif, tag) {
        None => None,
        Some(f) => match &f.value {
            ExifValue::Ascii(v) => if v.len() > 0 {
                Some(&v[0])
            } else {
                None
            },
            _ => None,
        },
    }
}

/// The trimmed, non-empty text of an ASCII field.
pub open spec fn field_str(fields: Map<ExifTag, ExifValueView>, tag: ExifTag) -> Option<Seq<char>> {
    match field_ascii(fields, tag) {
        None => None,
        Some(b) => utf8_text(b),
    }
}

pub fn read_str(exif: &ExifRecord, tag: ExifTag) -> (r: Option<String>)
    ensures
        r.deep_view() == field_str(exif@, tag),
{
    match first_ascii(exif, tag) {
        None => None,
        Some(b) => utf8_nonempty(b.as_slice()),
    }
}

/// How many `:` bytes `s[..i]` holds.
pub open spec fn colons_before(s: Seq<u8>, i: int) -> nat
    decreases i,
{
    if i <= 0 {
        0
    } else {
        colons_before(s, i - 1) + if s[i - 1] == 0x3a {
            1nat
        } else {
            0nat
        }
    }
}

/// `s` with its first two `:` bytes replaced by `-`: the EXIF form
/// `2021:01:15 12:30:00` becomes `2021-01-15 12:30:00`.
pub open spec fn dash_date_colons(s: Seq<u8>) -> Seq<u8> {
    Seq::new(
        s.len(),
        |i: int|
            if s[i] == 0x3a && colons_before(s, i) < 2 {
                0x2du8
            } else {
                s[i]
            },
    )
}

/// The result of `chrono::NaiveDateTime::parse_from_str(text, format)`,
/// read as UTC and given in Unix milliseconds; `None` where parsing fails.
pub uninterp spec fn naive_datetime_millis(text: Seq<char>, format: Seq<char>) -> Option<i64>;

/// Calls `chrono::NaiveDateTime::parse_from_str`, then `and_utc` and
/// `timestamp_millis` on what it parsed: the named result
/// `naive_datetime_millis` of the text and format. What chrono accepts and
/// how it counts days is not stated.
#[verifier::external_body]
fn parse_datetime_millis(text: &str, format: &str) -> (r: Option<i64>)
    ensures
        r == naive_datetime_millis(text@, format@),
{
    match chrono::NaiveDateTime::parse_from_str(text, format) {
        Ok(dt) => Some(dt.and_utc().timestamp_millis()),
        Err(_) => None,
    }
}

/// The Unix milliseconds of an EXIF date-time string such as
/// `2021:01:15 12:30:00` (read as UTC); `None` when it is not UTF-8 or does
/// not parse as `%Y-%m-%d %H:%M:%S` once its date colons are dashes.
pub open spec fn exif_datetime_ms(s: Seq<u8>) -> Option<i64> {
    let n = dash_date_colons(s);
    if valid_utf8(n) {
        naive_datetime_millis(decode_utf8(n), "%Y-%m-%d %H:%M:%S"@)
    } else {
        None
    }
}

fn dash_colons(s: &[u8]) -> (r: Vec<u8>)
    ensures
        r@ == dash_date_colons(s@),
{
    let mut out: Vec<u8> = Vec::new();
    let mut colons: usize = 0;
    let mut i: usize = 0;
    while i < s.len()
        invariant
            i <= s@.len(),
            out@.len() == i,
            colons == colons_before(s@, i as int),
            colons <= i,
            forall|j: int| 0 <= j < i ==> out@[j] == dash_date_colons(s@)[j],
        decreases s@.len() - i,
    {
        let b = s[i];
        if b == 0x3a {
            if colons < 2 {
                out.push(0x2d);
            } else {
                out.push(b);
            }
            colons += 1;
        } else {
            out.push(b);
        }
        i += 1;
    }
    assert(out@ =~= dash_date_colons(s@));
    out
}

/// Parse an EXIF date-time (`2021:01:15 12:30:00`) to Unix milliseconds, UTC.
pub fn parse_exif_datetime(s: &[u8]) -> (r: Option<i64>)
    ensures
        r == exif_datetime_ms(s@),
{
    let normalized = dash_colons(s);
    match utf8_str(normalized.as_slice()) {
        None => None,
        Some(text) => {
            proof {
                encode_utf8_decode_utf8(text@);
            }
            parse_datetime_millis(text, "%Y-%m-%d %H:%M:%S")
        },
    }
}

/// The date-time of an ASCII field.
pub open spec fn field_date(fields: Map<ExifTag, ExifValueView>, tag: ExifTag) -> Option<i64> {
    match field_ascii(fields, tag) {
        None => None,
        Some(b) => exif_datetime_ms(b),
    }
}

/// The capture time: the first of `DateTimeOriginal`, `DateTimeDigitized`
/// and `DateTime` that holds a date-time.
pub open spec fn capture_date(fields: Map<ExifTag, ExifValueView>) -> Option<i64> {
    let taken = field_date(fields, ExifTag::DateTimeOriginal);
    let digitized = field_date(fields, ExifTag::DateTimeDigitized);
    if taken is Some {
        taken
    } else if digitized is Some {
        digitized
    } else {
        field_date(fields, ExifTag::DateTime)
    }
}

pub fn read_str_date(exif: &ExifRecord, tag: ExifTag) -> (r: Option<i64>)
    ensures
        r == field_date(exif@, tag),
{
    match first_ascii(exif, tag) {
        None => None,
        Some(b) => parse_exif_datetime(b.as_slice()),
    }
}

pub fn read_date(exif: &ExifRecord) -> (r: Option<i64>)
    ensures
        r == capture_date(exif@),
{
    if let Some(ms) = read_str_date(exif, ExifTag::DateTimeOriginal) {
        return Some(ms);
    }
    if let Some(ms) = read_str_date(exif, ExifTag::DateTimeDigitized) {
        return Some(ms);
    }
    read_str_date(exif, ExifTag::DateTime)
}

/// A GPS coordinate as EXIF gives it: degrees, minutes and seconds, and
/// whether it is south or west (negative).
#[derive(Clone, Copy, Debug, PartialEq, Eq, Structural)]
pub struct GpsDms {
    pub degrees: Rational,
    pub minutes: Rational,
    pub seconds: Rational,
    pub negative: bool,
}

/// A GPS altitude in metres, and whether it is below sea level.
#[derive(Clone, Copy, Debug, PartialEq, Eq, Structural)]
pub struct GpsAltitude {
    pub metres: Rational,
    pub below_sea_level: bool,
}

/// The coordinate of a RATIONAL field with at least three values and its
/// ASCII reference field with at least one string: negative when that
/// string starts with `S` or `W`.
pub open spec fn field_dms(fields: Map<ExifTag, ExifValueView>, tag: ExifTag, ref_tag: ExifTag) -> Option<
    GpsDms,
> {
    match (field_value(fields, tag), field_value(fields, ref_tag)) {
        (Some(ExifValueView::Rational(d)), Some(ExifValueView::Ascii(a))) => if d.len() >= 3
            && a.len() > 0 {
            Some(
                GpsDms {
                    degrees: d[0],
                    minutes: d[1],
                    seconds: d[2],
                    negative: a[0].len() > 0 && (a[0][0] == 0x53 || a[0][0] == 0x57),
                },
            )
        } else {
            None
        },
        _ => None,
    }
}

/// A coordinate is negative exactly when its reference string starts with
/// `S` (south) or `W` (west); its degrees, minutes and seconds are the
/// first three values of its field. So a longitude with reference `"W"` is
/// west of Greenwich, and one with `"E"` east of it.
pub proof fn law_south_and_west_are_negative(
    fields: Map<ExifTag, ExifValueView>,
    tag: ExifTag,
    ref_tag: ExifTag,
    d: Seq<Rational>,
    a: Seq<Seq<u8>>,
)
    requires
        field_value(fields, tag) == Some(ExifValueView::Rational(d)),
        field_value(fields, ref_tag) == Some(ExifValueView::Ascii(a)),
        d.len() >= 3,
        a.len() > 0,
    ensures
        field_dms(fields, tag, ref_tag) matches Some(g) && g.degrees == d[0] && g.minutes == d[1]
            && g.seconds == d[2],
        field_dms(fields, tag, ref_tag) matches Some(g) && (g.negative <==> (a[0].len() > 0 && (
        a[0][0] == 0x53 || a[0][0] == 0x57))),
        a[0] == seq![0x57u8] ==> (field_dms(fields, tag, ref_tag) matches Some(g) && g.negative),
        a[0] == seq![0x53u8] ==> (field_dms(fields, tag, ref_tag) matches Some(g) && g.negative),
        a[0] == seq![0x4eu8] ==> (field_dms(fields, tag, ref_tag) matches Some(g) && !g.negative),
        a[0] == seq![0x45u8] ==> (field_dms(fields, tag, ref_tag) matches Some(g) && !g.negative),
{
}

pub fn read_gps_dms(exif: &ExifRecord, tag: ExifTag, ref_tag: ExifTag) -> (r: Option<GpsDms>)
    ensures
        r == field_dms(exif@, tag, ref_tag),
{
    let value = match get_field(exif, tag) {
        Some(f) => f,
        None => return None,
    };
    let reference = match get_field(exif, ref_tag) {
        Some(f) => f,
        None => return None,
    };
    match (&value.value, &reference.value) {
        (ExifValue::Rational(d), ExifValue::Ascii(a)) => {
            if d.len() < 3 || a.len() == 0 {
                return None;
            }
            let first = &a[0];
            let negative = first.len() > 0 && (first[0] == 0x53 || first[0] == 0x57);
            Some(GpsDms { degrees: d[0], minutes: d[1], seconds: d[2], negative })
        },
        _ => None,
    }
}

pub fn read_gps_lat(exif: &ExifRecord) -> (r: Option<GpsDms>)
    ensures
        r == field_dms(exif@, ExifTag::GpsLatitude, ExifTag::GpsLatitudeRef),
{
    read_gps_dms(exif, ExifTag::GpsLatitude, ExifTag::GpsLatitudeRef)
}

pub fn read_gps_lon(exif: &ExifRecord) -> (r: Option<GpsDms>)
    ensures
        r == field_dms(exif@, ExifTag::GpsLongitude, ExifTag::GpsLongitudeRef),
{
    read_gps_dms(exif, ExifTag::GpsLongitude, ExifTag::GpsLongitudeRef)
}

/// The altitude: the first value of the RATIONAL `GPSAltitude` field, below
/// sea level when the first value of a BYTE `GPSAltitudeRef` field is 1.
pub open spec fn field_altitude(fields: Map<ExifTag, ExifValueView>) -> Option<GpsAltitude> {
    match field_value(fields, ExifTag::GpsAltitude) {
        Some(ExifValueView::Rational(v)) => if v.len() > 0 {
            let below: u8 = match field_value(fields, ExifTag::GpsAltitudeRef) {
                Some(ExifValueView::Byte(b)) => if b.len() > 0 {
                    b[0]
                } else {
                    0
                },
                _ => 0,
            };
            Some(GpsAltitude { metres: v[0], below_sea_level: below == 1 })
        } else {
            None
        },
        _ => None,
    }
}

pub fn read_gps_alt(exif: &ExifRecord) -> (r: Option<GpsAltitude>)
    ensures
        r == field_altitude(exif@),
{
    let field = match get_field(exif, ExifTag::GpsAltitude) {
        Some(f) => f,
        None => return None,
    };
    match &field.value {
        ExifValue::Rational(v) => {
            if v.len() == 0 {
                return None;
            }
            let below: u8 = match get_field(exif, ExifTag::GpsAltitudeRef) {
                Some(r) => match &r.value {
                    ExifValue::Byte(b) => if b.len() > 0 {
                        b[0]
                    } else {
                        0
                    },
                    _ => 0,
                },
                None => 0,
            };
            Some(GpsAltitude { metres: v[0], below_sea_level: below == 1 })
        },
        _ => None,
    }
}

/// The (width, height) that the first 30 bytes of a WebP file give in its
/// first chunk: VP8X (24-bit canvas size minus one), VP8L (14-bit sizes minus
/// one after the 0x2F signature) or VP8 (14-bit sizes after the start code).
pub open spec fn webp_header_dims(b: Seq<u8>) -> Option<(u32, u32)> {
    if !(bytes4(b, 0, 0x52, 0x49, 0x46, 0x46) && bytes4(b, 8, 0x57, 0x45, 0x42, 0x50)) {
        None
    } else if bytes4(b, 12, 0x56, 0x50, 0x38, 0x58) {
        Some(((spec_le_u24(b, 24) + 1) as u32, (spec_le_u24(b, 27) + 1) as u32))
    } else if bytes4(b, 12, 0x56, 0x50, 0x38, 0x4c) {
        if b[20] != 0x2f {
            None
        } else {
            let bits = spec_le_u32(b, 21);
            Some(((bits % 0x4000 + 1) as u32, ((bits / 0x4000) % 0x4000 + 1) as u32))
        }
    } else if bytes4(b, 12, 0x56, 0x50, 0x38, 0x20) {
        if b[23] == 0x9d && b[24] == 0x01 && b[25] == 0x2a {
            Some(((spec_le_u16(b, 26) % 0x4000) as u32, (spec_le_u16(b, 28) % 0x4000) as u32))
        } else {
            None
        }
    } else {
        None
    }
}

/// Read image dimensions directly from the first 30 bytes of a WebP
/// bitstream (any bytes after them are not looked at) (VP8X / VP8L / VP8), for when EXIF dimension tags are absent.
pub fn webp_dimensions_from_header(buf: &[u8]) -> (r: Option<(u32, u32)>)
    requires
        buf@.len() >= 30,
    ensures
        r == webp_header_dims(buf@),
{
    if !(eq4(buf, 0, 0x52, 0x49, 0x46, 0x46) && eq4(buf, 8, 0x57, 0x45, 0x42, 0x50)) {
        return None;
    }
    if eq4(buf, 12, 0x56, 0x50, 0x38, 0x58) {
        let w = le_u24(buf, 24) + 1;
        let h = le_u24(buf, 27) + 1;
        Some((w, h))
    } else if eq4(buf, 12, 0x56, 0x50, 0x38, 0x4c) {
        if buf[20] != 0x2f {
            return None;
        }
        let bits = le_u32(buf, 21);
        assert(bits & 0x3fff == bits % 0x4000) by (bit_vector);
        assert((bits >> 14) & 0x3fff == (bits / 0x4000) % 0x4000) by (bit_vector);
        let w = (bits & 0x3fff) + 1;
        let h = ((bits >> 14) & 0x3fff) + 1;
        Some((w, h))
    } else if eq4(buf, 12, 0x56, 0x50, 0x38, 0x20) {
        if buf[23] == 0x9d && buf[24] == 0x01 && buf[25] == 0x2a {
            let wr = le_u16(buf, 26);
            let hr = le_u16(buf, 28);
            assert(wr & 0x3fff == wr % 0x4000) by (bit_vector);
            assert(hr & 0x3fff == hr % 0x4000) by (bit_vector);
            Some(((wr & 0x3fff) as u32, (hr & 0x3fff) as u32))
        } else {
            None
        }
    } else {
        None
    }
}

/// The (width, height) of an image: the EXIF `ImageWidth` and `ImageLength`,
/// swapped when `Orientation` is 5 to 8 (turned 90 or 270 degrees); for
/// WebP, a missing one is taken from the bitstream's dimensions `webp`.
pub open spec fn exif_dims(
    fields: Map<ExifTag, ExifValueView>,
    mime: MimeType,
    webp: Option<(u32, u32)>,
) -> (Option<u32>, Option<u32>) {
    let w0 = field_u32(fields, ExifTag::ImageWidth);
    let h0 = field_u32(fields, ExifTag::ImageLength);
    let orientation = match field_u32(fields, ExifTag::Orientation) {
        Some(o) => o,
        None => 1,
    };
    let (w, h) = if 5 <= orientation <= 8 {
        (h0, w0)
    } else {
        (w0, h0)
    };
    if mime == MimeType::Webp && (w is None || h is None) {
        match webp {
            Some((ww, hh)) => (
                if w is Some {
                    w
                } else {
                    Some(ww)
                },
                if h is Some {
                    h
                } else {
                    Some(hh)
                },
            ),
            None => (w, h),
        }
    } else {
        (w, h)
    }
}

/// What `image_meta` yields from the EXIF record of an image.
pub open spec fn exif_info_matches(
    m: MediaInfo,
    fields: Map<ExifTag, ExifValueView>,
    mime: MimeType,
    webp: Option<(u32, u32)>,
) -> bool {
    &&& m.mime_type == mime
    &&& (m.width, m.height) == exif_dims(fields, mime, webp)
    &&& m.captured_at_ms == capture_date(fields)
    &&& m.modified_at_ms == field_date(fields, ExifTag::DateTime)
    &&& m.camera_make.deep_view() == field_str(fields, ExifTag::Make)
    &&& m.camera_model.deep_view() == field_str(fields, ExifTag::Model)
    &&& m.location == Location::Exif(
        ExifGps {
            latitude: field_dms(fields, ExifTag::GpsLatitude, ExifTag::GpsLatitudeRef),
            longitude: field_dms(fields, ExifTag::GpsLongitude, ExifTag::GpsLongitudeRef),
            altitude: field_altitude(fields),
        },
    )
    &&& m.duration_ms is None
}

/// What `image_meta` yields for a WebP file without EXIF: the bitstream
/// dimensions and nothing else.
pub open spec fn webp_only_info_matches(m: MediaInfo, mime: MimeType, webp: Option<(u32, u32)>) -> bool {
    &&& m.mime_type == mime
    &&& m.width == (match webp {
        Some(d) => Some(d.0),
        None => None,
    })
    &&& m.height == (match webp {
        Some(d) => Some(d.1),
        None => None,
    })
    &&& m.captured_at_ms is None
    &&& m.modified_at_ms is None
    &&& m.camera_make is None
    &&& m.camera_model is None
    &&& m.location == Location::Exif(ExifGps { latitude: None, longitude: None, altitude: None })
    &&& m.duration_ms is None
}

/// The metadata of an image from the outcome of reading its EXIF block.
/// `webp` is the size that the WebP bitstream gives, for WebP files. When
/// the EXIF block could not be read, a WebP file still yields its bitstream
/// size; any other file yields the reading error unchanged.
pub fn image_meta<E>(mime: MimeType, exif: Result<ExifRecord, E>, webp: Option<(u32, u32)>) -> (r:
    Result<MediaInfo, E>)
    ensures
        match exif {
            Ok(record) => r matches Ok(m) && exif_info_matches(m, record@, mime, webp),
            Err(e) => if mime == MimeType::Webp {
                r matches Ok(m) && webp_only_info_matches(m, mime, webp)
            } else {
                r == Err::<MediaInfo, E>(e)
            },
        },
{
    match exif {
        Ok(record) => {
            let mut width = read_u32(&record, ExifTag::ImageWidth);
            let mut height = read_u32(&record, ExifTag::ImageLength);
            let orientation = match read_u32(&record, ExifTag::Orientation) {
                Some(o) => o,
                None => 1,
            };
            if 5 <= orientation && orientation <= 8 {
                let w = width;
                width = height;
                height = w;
            }
            if mime == MimeType::Webp && (width.is_none() || height.is_none()) {
                if let Some((w, h)) = webp {
                    if width.is_none() {
                        width = Some(w);
                    }
                    if height.is_none() {
                        height = Some(h);
                    }
                }
            }
            Ok(
                MediaInfo {
                    mime_type: mime,
                    width,
                    height,
                    captured_at_ms: read_date(&record),
                    modified_at_ms: read_str_date(&record, ExifTag::DateTime),
                    camera_make: read_str(&record, ExifTag::Make),
                    camera_model: read_str(&record, ExifTag::Model),
                    location: Location::Exif(
                        ExifGps {
                            latitude: read_gps_lat(&record),
                            longitude: read_gps_lon(&record),
                            altitude: read_gps_alt(&record),
                        },
                    ),
                    duration_ms: None,
                },
            )
        },
        Err(e) => {
            if mime == MimeType::Webp {
                let (width, height) = match webp {
                    Some((w, h)) => (Some(w), Some(h)),
                    None => (None, None),
                };
                Ok(
                    MediaInfo {
                        mime_type: mime,
                        width,
                        height,
                        captured_at_ms: None,
                        modified_at_ms: None,
                        camera_make: None,
                        camera_model: None,
                        location: Location::Exif(
                            ExifGps { latitude: None, longitude: None, altitude: None },
                        ),
                        duration_ms: None,
                    },
                )
            } else {
                Err(e)
            }
        },
    }
}

/// The directory of the primary image that an EXIF tag number belongs to.
#[derive(Clone, Copy, Debug, PartialEq, Eq, Structural)]
pub enum TagContext {
    Tiff,
    Exif,
    Gps,
}

/// The directory and number of each tag that the reader looks at.
pub open spec fn tag_id(tag: ExifTag) -> (TagContext, u16) {
    match tag {
        ExifTag::ImageWidth => (TagContext::Tiff, 0x100),
        ExifTag::ImageLength => (TagContext::Tiff, 0x101),
        ExifTag::Orientation => (TagContext::Tiff, 0x112),
        ExifTag::Make => (TagContext::Tiff, 0x10f),
        ExifTag::Model => (TagContext::Tiff, 0x110),
        ExifTag::DateTime => (TagContext::Tiff, 0x132),
        ExifTag::DateTimeOriginal => (TagContext::Exif, 0x9003),
        ExifTag::DateTimeDigitized => (TagContext::Exif, 0x9004),
        ExifTag::GpsLatitudeRef => (TagContext::Gps, 1),
        ExifTag::GpsLatitude => (TagContext::Gps, 2),
        ExifTag::GpsLongitudeRef => (TagContext::Gps, 3),
        ExifTag::GpsLongitude => (TagContext::Gps, 4),
        ExifTag::GpsAltitudeRef => (TagContext::Gps, 5),
        ExifTag::GpsAltitude => (TagContext::Gps, 6),
    }
}

fn tag_id_of(tag: ExifTag) -> (r: (TagContext, u16))
    ensures
        r == tag_id(tag),
{
    match tag {
        ExifTag::ImageWidth => (TagContext::Tiff, 0x100),
        ExifTag::ImageLength => (TagContext::Tiff, 0x101),
        ExifTag::Orientation => (TagContext::Tiff, 0x112),
        ExifTag::Make => (TagContext::Tiff, 0x10f),
        ExifTag::Model => (TagContext::Tiff, 0x110),
        ExifTag::DateTime => (TagContext::Tiff, 0x132),
        ExifTag::DateTimeOriginal => (TagContext::Exif, 0x9003),
        ExifTag::DateTimeDigitized => (TagContext::Exif, 0x9004),
        ExifTag::GpsLatitudeRef => (TagContext::Gps, 1),
        ExifTag::GpsLatitude => (TagContext::Gps, 2),
        ExifTag::GpsLongitudeRef => (TagContext::Gps, 3),
        ExifTag::GpsLongitude => (TagContext::Gps, 4),
        ExifTag::GpsAltitudeRef => (TagContext::Gps, 5),
        ExifTag::GpsAltitude => (TagContext::Gps, 6),
    }
}

/// The place of each tag in the order in which the reader asks for them.
pub open spec fn tag_index(tag: ExifTag) -> nat {
    match tag {
        ExifTag::ImageWidth => 0,
        ExifTag::ImageLength => 1,
        ExifTag::Orientation => 2,
        ExifTag::Make => 3,
        ExifTag::Model => 4,
        ExifTag::DateTime => 5,
        ExifTag::DateTimeOriginal => 6,
        ExifTag::DateTimeDigitized => 7,
        ExifTag::GpsLatitudeRef => 8,
        ExifTag::GpsLatitude => 9,
        ExifTag::GpsLongitudeRef => 10,
        ExifTag::GpsLongitude => 11,
        ExifTag::GpsAltitudeRef => 12,
        ExifTag::GpsAltitude => 13,
    }
}

fn tag_at(i: usize) -> (t: ExifTag)
    requires
        i < 14,
    ensures
        tag_index(t) == i,
{
    match i {
        0 => ExifTag::ImageWidth,
        1 => ExifTag::ImageLength,
        2 => ExifTag::Orientation,
        3 => ExifTag::Make,
        4 => ExifTag::Model,
        5 => ExifTag::DateTime,
        6 => ExifTag::DateTimeOriginal,
        7 => ExifTag::DateTimeDigitized,
        8 => ExifTag::GpsLatitudeRef,
        9 => ExifTag::GpsLatitude,
        10 => ExifTag::GpsLongitudeRef,
        11 => ExifTag::GpsLongitude,
        12 => ExifTag::GpsAltitudeRef,
        _ => ExifTag::GpsAltitude,
    }
}

#[verifier::external_type_specification]
#[verifier::external_body]
pub struct ExExif(exif::Exif);

#[verifier::external_type_specification]
#[verifier::external_body]
pub struct ExExifError(exif::Error);

/// The fields of the primary image that a parsed `exif::Exif` holds in the
/// TIFF, EXIF and GPS directories, by directory and tag number, each value
/// as `ExifValueView` (value types other than BYTE, ASCII, SHORT, LONG and
/// RATIONAL as `Other`).
pub uninterp spec fn primary_fields(exif: exif::Exif) -> Map<(TagContext, u16), ExifValueView>;

/// What `exif::Reader::read_from_container` finds in the bytes of a file:
/// the `primary_fields` of the EXIF block it parses, or `None` where it
/// returns an error.
pub uninterp spec fn exif_block(file: Seq<u8>) -> Option<Map<(TagContext, u16), ExifValueView>>;

/// Calls `exif::Reader::new().read_from_container` on the bytes of a file
/// (through an in-memory cursor). Its outcome is the named result
/// `exif_block` of the bytes: which containers and TIFF layouts kamadak-exif
/// accepts is not stated here, nor which error it returns.
#[verifier::external_body]
fn read_exif_block(file: &[u8]) -> (r: Result<exif::Exif, exif::Error>)
    ensures
        match exif_block(file@) {
            Some(m) => r matches Ok(e) && primary_fields(e) == m,
            None => r is Err,
        },
{
    exif::Reader::new().read_from_container(&mut std::io::Cursor::new(file))
}

/// Calls `exif::Exif::get_field` for the tag with this directory and number
/// in the primary image (`exif::In::PRIMARY`), and converts the value of the
/// field it finds: the entry of `primary_fields` at that tag, if any.
#[verifier::external_body]
fn primary_field(exif: &exif::Exif, context: TagContext, number: u16) -> (r: Option<ExifValue>)
    ensures
        match r {
            Some(v) => primary_fields(*exif).dom().contains((context, number))
                && primary_fields(*exif)[(context, number)] == v@,
            None => !primary_fields(*exif).dom().contains((context, number)),
        },
{
    let context = match context {
        TagContext::Tiff => exif::Context::Tiff,
        TagContext::Exif => exif::Context::Exif,
        TagContext::Gps => exif::Context::Gps,
    };
    Some(match &exif.get_field(exif::Tag(context, number), exif::In::PRIMARY)?.value {
        exif::Value::Byte(v) => ExifValue::Byte(v.clone()),
        exif::Value::Ascii(v) => ExifValue::Ascii(v.clone()),
        exif::Value::Short(v) => ExifValue::Short(v.clone()),
        exif::Value::Long(v) => ExifValue::Long(v.clone()),
        exif::Value::Rational(v) => ExifValue::Rational(
            v.iter().map(|r| Rational { num: r.num, denom: r.denom }).collect(),
        ),
        _ => ExifValue::Other,
    })
}

/// The fields of `m` that the reader looks at, by tag.
pub open spec fn tag_fields(m: Map<(TagContext, u16), ExifValueView>) -> Map<ExifTag, ExifValueView> {
    Map::new(|t: ExifTag| m.dom().contains(tag_id(t)), |t: ExifTag| m[tag_id(t)])
}

/// The value of the first field of `fields[i..]` with tag `tag`.
pub open spec fn found_value(fields: Seq<ExifField>, tag: ExifTag, i: int) -> Option<ExifValueView> {
    match find_field(fields, tag, i) {
        Some(f) => Some(f.value@),
        None => None,
    }
}

proof fn lemma_find_field_push(fields: Seq<ExifField>, f: ExifField, tag: ExifTag, i: int)
    requires
        0 <= i <= fields.len(),
    ensures
        found_value(fields.push(f), tag, i) == (match found_value(fields, tag, i) {
            Some(v) => Some(v),
            None => if f.tag == tag {
                Some(f.value@)
            } else {
                None
            },
        }),
    decreases fields.len() - i,
{
    if i < fields.len() {
        assert(fields.push(f)[i] == fields[i]);
        if fields[i].tag != tag {
            lemma_find_field_push(fields, f, tag, i + 1);
        }
    } else {
        assert(fields.push(f)[i] == f);
        if f.tag != tag {
            assert(find_field(fields.push(f), tag, i + 1) is None);
        }
    }
}

/// The record of the fields that the reader looks at in a parsed EXIF block.
fn exif_record(exif: &exif::Exif) -> (r: ExifRecord)
    ensures
        r@ == tag_fields(primary_fields(*exif)),
{
    let ghost m = primary_fields(*exif);
    let mut fields: Vec<ExifField> = Vec::new();
    let mut i: usize = 0;
    while i < 14
        invariant
            i <= 14,
            m == primary_fields(*exif),
            forall|t: ExifTag|
                #[trigger] found_value(fields@, t, 0) == if tag_index(t) < i {
                    field_value(tag_fields(m), t)
                } else {
                    None
                },
        decreases 14 - i,
    {
        let tag = tag_at(i);
        let (context, number) = tag_id_of(tag);
        if let Some(value) = primary_field(exif, context, number) {
            let ghost old_fields = fields@;
            let field = ExifField { tag, value };
            proof {
                assert forall|t: ExifTag| #[trigger]
                    found_value(old_fields.push(field), t, 0) == if tag_index(t) < i + 1 {
                        field_value(tag_fields(m), t)
                    } else {
                        None
                    } by {
                    lemma_find_field_push(old_fields, field, t, 0);
                }
            }
            fields.push(field);
        } else {
            proof {
                assert forall|t: ExifTag| #[trigger]
                    found_value(fields@, t, 0) == if tag_index(t) < i + 1 {
                        field_value(tag_fields(m), t)
                    } else {
                        None
                    } by {
                    if tag_index(t) == i {
                        assert(t == tag);
                    }
                }
            }
        }
        i += 1;
    }
    let r = ExifRecord { fields };
    assert forall|t: ExifTag| #[trigger] r@.dom().contains(t) == tag_fields(m).dom().contains(t) by {
        assert(found_value(fields@, t, 0) == field_value(tag_fields(m), t));
    }
    assert(r@ =~= tag_fields(m)) by {
        assert forall|t: ExifTag| r@.dom().contains(t) implies r@[t] == tag_fields(m)[t] by {
            assert(found_value(fields@, t, 0) == field_value(tag_fields(m), t));
        }
    }
    r
}

/// The EXIF record of a file's bytes, or the error that kamadak-exif gave.
pub fn read_exif_record(file: &[u8]) -> (r: Result<ExifRecord, exif::Error>)
    ensures
        match exif_block(file@) {
            Some(m) => r matches Ok(record) && record@ == tag_fields(m),
            None => r is Err,
        },
{
    match read_exif_block(file) {
        Ok(exif) => Ok(exif_record(&exif)),
        Err(e) => Err(e),
    }
}

/// The size that the WebP bitstream of a file gives: from its first 30
/// bytes, for WebP files that long.
pub open spec fn file_webp_dims(mime: MimeType, file: Seq<u8>) -> Option<(u32, u32)> {
    if mime == MimeType::Webp && file.len() >= 30 {
        webp_header_dims(file)
    } else {
        None
    }
}

/// The metadata of an image file from its bytes: its EXIF block through
/// kamadak-exif, and for WebP the size in its bitstream.
pub fn read_image(mime: MimeType, file: &[u8]) -> (r: Result<MediaInfo, exif::Error>)
    ensures
        match exif_block(file@) {
            Some(m) => r matches Ok(info) && exif_info_matches(
                info,
                tag_fields(m),
                mime,
                file_webp_dims(mime, file@),
            ),
            None => if mime == MimeType::Webp {
                r matches Ok(info) && webp_only_info_matches(info, mime, file_webp_dims(mime, file@))
            } else {
                r is Err
            },
        },
{
    let exif = read_exif_record(file);
    let webp = if mime == MimeType::Webp && file.len() >= 30 {
        webp_dimensions_from_header(file)
    } else {
        None
    };
    image_meta(mime, exif, webp)
}

} // verus!
