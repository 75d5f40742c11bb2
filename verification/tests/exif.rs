use media_metadata_plus::api::Location;
use media_metadata_plus::mime::MimeType;
use media_metadata_plus::readers::exif::{
    image_meta, parse_exif_datetime, read_date, read_exif_record, read_image, read_gps_alt, read_gps_lat, read_gps_lon,
    read_str, read_str_date, read_u32, webp_dimensions_from_header, ExifField, ExifRecord,
    ExifTag, ExifValue, Rational,
};

fn ascii(tag: ExifTag, s: &str) -> ExifField {
    ExifField { tag, value: ExifValue::Ascii(vec![s.as_bytes().to_vec()]) }
}

fn rat(num: u32, denom: u32) -> Rational {
    Rational { num, denom }
}

fn record(fields: Vec<ExifField>) -> ExifRecord {
    ExifRecord { fields }
}

#[test]
fn parse_exif_datetime_reads_utc_millis() {
    assert_eq!(parse_exif_datetime(b"2021:01:15 12:30:00"), Some(1_610_713_800_000));
    assert_eq!(parse_exif_datetime(b"1970:01:01 00:00:01"), Some(1_000));
    assert_eq!(parse_exif_datetime(b"not a date"), None);
    assert_eq!(parse_exif_datetime(b"2021:01:15 12:30"), None);
    assert_eq!(parse_exif_datetime(&[0xff, 0x3a]), None);
}

#[test]
fn read_u32_takes_long_or_short() {
    let exif = record(vec![
        ExifField { tag: ExifTag::ImageWidth, value: ExifValue::Long(vec![4032, 1]) },
        ExifField { tag: ExifTag::ImageLength, value: ExifValue::Short(vec![3024]) },
        ExifField { tag: ExifTag::Orientation, value: ExifValue::Byte(vec![6]) },
    ]);
    assert_eq!(read_u32(&exif, ExifTag::ImageWidth), Some(4032));
    assert_eq!(read_u32(&exif, ExifTag::ImageLength), Some(3024));
    assert_eq!(read_u32(&exif, ExifTag::Orientation), None);
    assert_eq!(read_u32(&exif, ExifTag::Make), None);
}

#[test]
fn read_str_trims_and_rejects_blank() {
    let exif = record(vec![ascii(ExifTag::Make, "  Apple "), ascii(ExifTag::Model, "   ")]);
    assert_eq!(read_str(&exif, ExifTag::Make), Some("Apple".to_string()));
    assert_eq!(read_str(&exif, ExifTag::Model), None);
}

#[test]
fn read_date_prefers_original_then_digitized_then_datetime() {
    let exif = record(vec![
        ascii(ExifTag::DateTime, "2021:01:03 00:00:00"),
        ascii(ExifTag::DateTimeDigitized, "2021:01:02 00:00:00"),
        ascii(ExifTag::DateTimeOriginal, "garbage"),
    ]);
    assert_eq!(read_date(&exif), Some(1_609_545_600_000));
    assert_eq!(read_str_date(&exif, ExifTag::DateTime), Some(1_609_632_000_000));
    let exif = record(vec![ascii(ExifTag::DateTime, "2021:01:03 00:00:00")]);
    assert_eq!(read_date(&exif), Some(1_609_632_000_000));
    assert_eq!(read_date(&record(vec![])), None);
}

#[test]
fn gps_keeps_dms_and_hemisphere() {
    let exif = record(vec![
        ExifField {
            tag: ExifTag::GpsLatitude,
            value: ExifValue::Rational(vec![rat(33, 1), rat(52, 1), rat(768, 100)]),
        },
        ascii(ExifTag::GpsLatitudeRef, "S"),
        ExifField {
            tag: ExifTag::GpsLongitude,
            value: ExifValue::Rational(vec![rat(151, 1), rat(12, 1), rat(0, 1)]),
        },
        ascii(ExifTag::GpsLongitudeRef, "E"),
        ExifField { tag: ExifTag::GpsAltitude, value: ExifValue::Rational(vec![rat(153, 10)]) },
        ExifField { tag: ExifTag::GpsAltitudeRef, value: ExifValue::Byte(vec![1]) },
    ]);
    let lat = read_gps_lat(&exif).unwrap();
    assert!(lat.negative);
    assert_eq!((lat.degrees, lat.minutes, lat.seconds), (rat(33, 1), rat(52, 1), rat(768, 100)));
    let lon = read_gps_lon(&exif).unwrap();
    assert!(!lon.negative);
    let alt = read_gps_alt(&exif).unwrap();
    assert_eq!(alt.metres, rat(153, 10));
    assert!(alt.below_sea_level);
}

#[test]
fn gps_needs_three_values_and_a_reference() {
    let exif = record(vec![
        ExifField { tag: ExifTag::GpsLatitude, value: ExifValue::Rational(vec![rat(1, 1), rat(2, 1)]) },
        ascii(ExifTag::GpsLatitudeRef, "N"),
        ExifField {
            tag: ExifTag::GpsLongitude,
            value: ExifValue::Rational(vec![rat(1, 1), rat(2, 1), rat(3, 1)]),
        },
        ExifField { tag: ExifTag::GpsAltitude, value: ExifValue::Rational(vec![rat(5, 1)]) },
    ]);
    assert_eq!(read_gps_lat(&exif), None);
    assert_eq!(read_gps_lon(&exif), None);
    let alt = read_gps_alt(&exif).unwrap();
    assert!(!alt.below_sea_level);
}

fn webp_header(chunk: &[u8; 4], data: &[u8]) -> Vec<u8> {
    let mut buf = b"RIFF".to_vec();
    buf.extend_from_slice(&[0, 0, 0, 0]);
    buf.extend_from_slice(b"WEBP");
    buf.extend_from_slice(chunk);
    buf.extend_from_slice(&[0, 0, 0, 0]);
    buf.extend_from_slice(data);
    buf.resize(30, 0);
    buf
}

#[test]
fn webp_dimensions_from_each_chunk_kind() {
    // VP8X: flags(4) then 24-bit width-1 and height-1.
    let vp8x = webp_header(b"VP8X", &[0, 0, 0, 0, 0x7f, 0x07, 0, 0x37, 0x04, 0]);
    assert_eq!(webp_dimensions_from_header(&vp8x), Some((1920, 1080)));
    // VP8L: signature 0x2F, then 14-bit width-1 and height-1.
    let bits: u32 = 99 | (49 << 14);
    let mut data = vec![0x2f];
    data.extend_from_slice(&bits.to_le_bytes());
    let vp8l = webp_header(b"VP8L", &data);
    assert_eq!(webp_dimensions_from_header(&vp8l), Some((100, 50)));
    let mut bad = vp8l.clone();
    bad[20] = 0;
    assert_eq!(webp_dimensions_from_header(&bad), None);
    // VP8: frame tag, start code, 14-bit width and height.
    let vp8 = webp_header(b"VP8 ", &[0, 0, 0, 0x9d, 0x01, 0x2a, 0x80, 0x02, 0xe0, 0xc1]);
    assert_eq!(webp_dimensions_from_header(&vp8), Some((640, 480)));
    assert_eq!(webp_dimensions_from_header(&webp_header(b"ALPH", &[])), None);
    let mut not_webp = vp8x.clone();
    not_webp[8] = b'X';
    assert_eq!(webp_dimensions_from_header(&not_webp), None);
}

#[test]
fn image_meta_swaps_dimensions_for_rotated_orientation() {
    let exif = record(vec![
        ExifField { tag: ExifTag::ImageWidth, value: ExifValue::Long(vec![4032]) },
        ExifField { tag: ExifTag::ImageLength, value: ExifValue::Long(vec![3024]) },
        ExifField { tag: ExifTag::Orientation, value: ExifValue::Short(vec![6]) },
        ascii(ExifTag::Make, "Apple"),
        ascii(ExifTag::Model, "iPhone 15 Pro"),
        ascii(ExifTag::DateTime, "2024:03:16 08:00:00"),
    ]);
    let m = image_meta::<()>(MimeType::Heic, Ok(exif), None).unwrap();
    assert_eq!((m.width, m.height), (Some(3024), Some(4032)));
    assert_eq!(m.camera_make, Some("Apple".to_string()));
    assert_eq!(m.camera_model, Some("iPhone 15 Pro".to_string()));
    assert_eq!(m.modified_at_ms, Some(1_710_576_000_000));
    assert_eq!(m.captured_at_ms, Some(1_710_576_000_000));
    assert_eq!(m.duration_ms, None);
    assert!(matches!(m.location, Location::Exif(_)));
}

#[test]
fn image_meta_keeps_dimensions_for_upright_orientation() {
    let exif = record(vec![
        ExifField { tag: ExifTag::ImageWidth, value: ExifValue::Long(vec![10]) },
        ExifField { tag: ExifTag::ImageLength, value: ExifValue::Long(vec![20]) },
        ExifField { tag: ExifTag::Orientation, value: ExifValue::Short(vec![3]) },
    ]);
    let m = image_meta::<()>(MimeType::Jpeg, Ok(exif), Some((1, 1))).unwrap();
    assert_eq!((m.width, m.height), (Some(10), Some(20)));
}

#[test]
fn image_meta_fills_webp_dimensions_from_bitstream() {
    let exif = record(vec![ExifField { tag: ExifTag::ImageWidth, value: ExifValue::Long(vec![7]) }]);
    let m = image_meta::<()>(MimeType::Webp, Ok(exif), Some((100, 50))).unwrap();
    assert_eq!((m.width, m.height), (Some(7), Some(50)));
    let m = image_meta(MimeType::Webp, Err("no exif"), Some((100, 50))).unwrap();
    assert_eq!((m.width, m.height), (Some(100), Some(50)));
    assert_eq!(m.captured_at_ms, None);
    let m = image_meta(MimeType::Webp, Err("no exif"), None).unwrap();
    assert_eq!((m.width, m.height), (None, None));
    let e = image_meta(MimeType::Png, Err("no exif"), Some((100, 50))).err();
    assert_eq!(e, Some("no exif"));
}

/// A little-endian TIFF file with one IFD holding `entries`
/// (tag, type, count, inline value or data appended after the IFD).
fn tiff_file(entries: &[(u16, u16, u32, Vec<u8>)]) -> Vec<u8> {
    let mut out = vec![0x49, 0x49, 0x2a, 0x00, 0x08, 0x00, 0x00, 0x00];
    let ifd_len = 2 + 12 * entries.len() + 4;
    let mut data: Vec<u8> = Vec::new();
    out.extend_from_slice(&(entries.len() as u16).to_le_bytes());
    for (tag, typ, count, value) in entries {
        out.extend_from_slice(&tag.to_le_bytes());
        out.extend_from_slice(&typ.to_le_bytes());
        out.extend_from_slice(&count.to_le_bytes());
        if value.len() <= 4 {
            let mut inline = value.clone();
            inline.resize(4, 0);
            out.extend_from_slice(&inline);
        } else {
            let offset = (8 + ifd_len + data.len()) as u32;
            out.extend_from_slice(&offset.to_le_bytes());
            data.extend_from_slice(value);
        }
    }
    out.extend_from_slice(&[0, 0, 0, 0]);
    out.extend_from_slice(&data);
    out
}

fn camera_tiff() -> Vec<u8> {
    tiff_file(&[
        (0x100, 3, 1, 640u16.to_le_bytes().to_vec()),
        (0x101, 4, 1, 480u32.to_le_bytes().to_vec()),
        (0x10f, 2, 4, b"Abc\0".to_vec()),
        (0x112, 3, 1, 6u16.to_le_bytes().to_vec()),
        (0x132, 2, 20, b"2021:01:15 12:30:00\0".to_vec()),
    ])
}

#[test]
fn read_exif_record_keeps_the_fields_read() {
    let record = read_exif_record(&camera_tiff()).unwrap();
    assert_eq!(read_u32(&record, ExifTag::ImageWidth), Some(640));
    assert_eq!(read_u32(&record, ExifTag::ImageLength), Some(480));
    assert_eq!(read_u32(&record, ExifTag::Orientation), Some(6));
    assert_eq!(read_str(&record, ExifTag::Make), Some("Abc".to_string()));
    assert_eq!(read_str(&record, ExifTag::Model), None);
    assert!(read_exif_record(b"not an image at all").is_err());
}

#[test]
fn read_image_reads_a_tiff_file() {
    let m = read_image(MimeType::Tiff, &camera_tiff()).unwrap();
    assert_eq!(m.mime_type, MimeType::Tiff);
    // Orientation 6: turned 90 degrees, so the stored sides swap.
    assert_eq!(m.width, Some(480));
    assert_eq!(m.height, Some(640));
    assert_eq!(m.camera_make, Some("Abc".to_string()));
    assert_eq!(m.camera_model, None);
    assert_eq!(m.modified_at_ms, Some(1_610_713_800_000));
    assert_eq!(m.captured_at_ms, Some(1_610_713_800_000));
    assert_eq!(m.duration_ms, None);
}

#[test]
fn read_image_without_exif_fails_but_for_webp() {
    assert!(read_image(MimeType::Jpeg, b"not an image at all").is_err());
    let vp8x = webp_header(b"VP8X", &[0, 0, 0, 0, 0x7f, 0x07, 0, 0x37, 0x04, 0]);
    let m = read_image(MimeType::Webp, &vp8x).unwrap();
    assert_eq!(m.width, Some(1920));
    assert_eq!(m.height, Some(1080));
    assert_eq!(m.camera_make, None);
    assert_eq!(m.captured_at_ms, None);
    // Too short for the bitstream header: no size.
    let m = read_image(MimeType::Webp, &vp8x[..20]).unwrap();
    assert_eq!(m.width, None);
    assert_eq!(m.height, None);
}
