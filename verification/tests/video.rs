use media_metadata_plus::api::Location;
use media_metadata_plus::mime::MimeType;
use media_metadata_plus::readers::video::{
    covr_thumbnail, iso6709_fields, mp4_timestamp, parse_3gpp_text, parse_mvhd,
    parse_tkhd_dimensions, read_ilst_bytes, read_itunes_text, read_moov_fallback, read_video,
    video_meta, MovieError,
    MovieHeader, TrackInfo,
};
use media_metadata_plus::api::{thumbnail_source, ThumbnailSource};
use media_metadata_plus::readers::movie_boxes::movie_boxes_check;
use media_metadata_plus::text::utf8_nonempty;

fn make_box(name: &[u8; 4], content: &[u8]) -> Vec<u8> {
    let size = (8 + content.len()) as u32;
    let mut out = size.to_be_bytes().to_vec();
    out.extend_from_slice(name);
    out.extend_from_slice(content);
    out
}

#[test]
fn mp4_timestamp_treats_zero_as_absent() {
    assert_eq!(mp4_timestamp(0), None);
}

#[test]
fn mp4_timestamp_converts_1904_epoch_to_unix_millis() {
    // 100 seconds after the Unix epoch, expressed in the MP4 (1904) epoch.
    assert_eq!(mp4_timestamp(2_082_844_800 + 100), Some(100_000));
}

#[test]
fn mp4_timestamp_before_1970_clamps_to_unix_epoch() {
    assert_eq!(mp4_timestamp(1), Some(0));
    assert_eq!(mp4_timestamp(2_082_844_800), Some(0));
}

/// Build an `mvhd` FullBox body (version 0 or 1) with the given raw field values.
fn build_mvhd(version: u8, creation: u64, modification: u64, timescale: u32, duration: u64) -> Vec<u8> {
    let mut buf = vec![version, 0, 0, 0];
    if version == 1 {
        buf.extend_from_slice(&creation.to_be_bytes());
        buf.extend_from_slice(&modification.to_be_bytes());
        buf.extend_from_slice(&timescale.to_be_bytes());
        buf.extend_from_slice(&duration.to_be_bytes());
    } else {
        buf.extend_from_slice(&(creation as u32).to_be_bytes());
        buf.extend_from_slice(&(modification as u32).to_be_bytes());
        buf.extend_from_slice(&timescale.to_be_bytes());
        buf.extend_from_slice(&(duration as u32).to_be_bytes());
    }
    buf
}

#[test]
fn parse_mvhd_version0() {
    let mvhd = build_mvhd(0, 2_082_844_800 + 100, 2_082_844_800 + 200, 1000, 2500);
    let (creation, modification, duration_ms) = parse_mvhd(&mvhd).unwrap();
    assert_eq!(creation, Some(100_000));
    assert_eq!(modification, Some(200_000));
    assert_eq!(duration_ms, Some(2500));
}

#[test]
fn parse_mvhd_version1() {
    let mvhd = build_mvhd(1, 2_082_844_800 + 300, 2_082_844_800 + 400, 48_000, 96_000);
    let (creation, modification, duration_ms) = parse_mvhd(&mvhd).unwrap();
    assert_eq!(creation, Some(300_000));
    assert_eq!(modification, Some(400_000));
    assert_eq!(duration_ms, Some(2_000));
}

#[test]
fn parse_mvhd_zero_timescale_yields_no_duration() {
    let mvhd = build_mvhd(0, 0, 0, 0, 0);
    let (creation, modification, duration_ms) = parse_mvhd(&mvhd).unwrap();
    assert_eq!(creation, None);
    assert_eq!(modification, None);
    assert_eq!(duration_ms, None);
}

#[test]
fn parse_mvhd_rejects_truncated_box() {
    assert_eq!(parse_mvhd(&[0, 0, 0]), None);
}

#[test]
fn parse_mvhd_saturates_huge_duration() {
    let mvhd = build_mvhd(1, 0, 0, 1000, u64::MAX / 10);
    let (_, _, duration_ms) = parse_mvhd(&mvhd).unwrap();
    assert_eq!(duration_ms, Some(u64::MAX / 1000));
}

#[test]
fn parse_mvhd_version1_needs_32_bytes() {
    let mvhd = build_mvhd(1, 1, 1, 1, 1);
    assert_eq!(parse_mvhd(&mvhd[..31]), None);
    assert!(parse_mvhd(&mvhd).is_some());
}

/// Build a `tkhd` FullBox body (version 0 or 1) with the given pixel dimensions
/// (fixed-point 16.16, so plain integers are shifted left by 16 bits).
fn build_tkhd(version: u8, width: u32, height: u32) -> Vec<u8> {
    let version_block_len = if version == 1 { 32 } else { 20 };
    let mut buf = vec![version, 0, 0, 0];
    buf.extend(std::iter::repeat(0u8).take(version_block_len));
    buf.extend(std::iter::repeat(0u8).take(52)); // reserved/layer/volume/matrix
    buf.extend_from_slice(&(width << 16).to_be_bytes());
    buf.extend_from_slice(&(height << 16).to_be_bytes());
    buf
}

#[test]
fn parse_tkhd_dimensions_version0() {
    let tkhd = build_tkhd(0, 480, 270);
    assert_eq!(parse_tkhd_dimensions(&tkhd), Some((480, 270)));
}

#[test]
fn parse_tkhd_dimensions_version1() {
    let tkhd = build_tkhd(1, 640, 360);
    assert_eq!(parse_tkhd_dimensions(&tkhd), Some((640, 360)));
}

#[test]
fn parse_tkhd_dimensions_rejects_truncated_box() {
    assert_eq!(parse_tkhd_dimensions(&[0, 0, 0]), None);
}

#[test]
fn parse_tkhd_dimensions_drops_fraction() {
    let mut tkhd = build_tkhd(0, 100, 50);
    let n = tkhd.len();
    tkhd[n - 5] = 0x80; // width 100.5
    assert_eq!(parse_tkhd_dimensions(&tkhd), Some((100, 50)));
}

#[test]
fn parse_3gpp_text_reads_declared_length() {
    // length(2)=5, language(2)=0, then "hello" plus trailing garbage past the
    // declared length that must be ignored.
    let mut data = vec![0, 5, 0, 0];
    data.extend_from_slice(b"helloXXXX");
    assert_eq!(parse_3gpp_text(&data), Some("hello".to_string()));
}

#[test]
fn parse_3gpp_text_falls_back_when_length_invalid() {
    // declared length larger than the remaining buffer — falls back to
    // reading everything after the 4-byte header.
    let mut data = vec![255, 255, 0, 0];
    data.extend_from_slice(b"fallback");
    assert_eq!(parse_3gpp_text(&data), Some("fallback".to_string()));
}

#[test]
fn parse_3gpp_text_falls_back_when_declared_text_is_blank() {
    let mut data = vec![0, 2, 0, 0];
    data.extend_from_slice(b"  tail");
    assert_eq!(parse_3gpp_text(&data), Some("tail".to_string()));
    assert_eq!(parse_3gpp_text(&[0, 1, 0]), None);
}

#[test]
fn utf8_nonempty_trims_and_rejects_blank() {
    assert_eq!(utf8_nonempty(b"  hello  "), Some("hello".to_string()));
    assert_eq!(utf8_nonempty(b""), None);
    assert_eq!(utf8_nonempty(b"   "), None);
}

#[test]
fn utf8_nonempty_rejects_invalid_utf8_and_trims_unicode_space() {
    assert_eq!(utf8_nonempty(&[0xff, 0x41]), None);
    assert_eq!(utf8_nonempty("\u{3000}Canon\u{a0}".as_bytes()), Some("Canon".to_string()));
}

fn data_box(payload: &[u8]) -> Vec<u8> {
    let mut body = vec![0, 0, 0, 1, 0, 0, 0, 0];
    body.extend_from_slice(payload);
    make_box(b"data", &body)
}

/// `meta` FullBox holding `ilst > <atom> > data`.
fn meta_with(atom: &[u8; 4], payload: &[u8]) -> Vec<u8> {
    let ilst = make_box(b"ilst", &make_box(atom, &data_box(payload)));
    let mut body = vec![0, 0, 0, 0];
    body.extend(ilst);
    make_box(b"meta", &body)
}

fn text_3gpp_atom(atom: &[u8; 4], text: &[u8]) -> Vec<u8> {
    let mut body = (text.len() as u16).to_be_bytes().to_vec();
    body.extend_from_slice(&[0x15, 0xc7]);
    body.extend_from_slice(text);
    make_box(atom, &body)
}

#[test]
fn itunes_text_prefers_udta_ilst_then_3gpp_then_bare_meta() {
    let make = b"\xa9mak";
    // All three places: the iTunes one under udta wins.
    let mut udta_body = meta_with(make, b"Apple");
    udta_body.extend(text_3gpp_atom(make, b"Android"));
    let mut moov = make_box(b"udta", &udta_body);
    moov.extend(meta_with(make, b"Bare"));
    assert_eq!(read_itunes_text(&moov, make), Some("Apple".to_string()));

    // Without the iTunes atom, the 3GPP one.
    let mut moov = make_box(b"udta", &text_3gpp_atom(make, b"Android"));
    moov.extend(meta_with(make, b"Bare"));
    assert_eq!(read_itunes_text(&moov, make), Some("Android".to_string()));

    // Only the wrapper-less one.
    let moov = meta_with(make, b"Bare");
    assert_eq!(read_itunes_text(&moov, make), Some("Bare".to_string()));

    assert_eq!(read_itunes_text(&moov, b"\xa9mod"), None);
}

#[test]
fn read_ilst_bytes_rejects_empty_payload() {
    let ilst = make_box(b"ilst", &make_box(b"covr", &data_box(&[])));
    assert_eq!(read_ilst_bytes(&ilst, b"covr"), None);
    let ilst = make_box(b"ilst", &make_box(b"covr", &data_box(&[1, 2])));
    assert_eq!(read_ilst_bytes(&ilst, b"covr"), Some(vec![1, 2]));
}

#[test]
fn covr_thumbnail_reads_udta_then_bare_meta() {
    let jpeg = [0xFFu8, 0xD8, 0xFF, 0xE0];
    let moov = make_box(b"udta", &meta_with(b"covr", &jpeg));
    assert_eq!(covr_thumbnail(&moov), Some(jpeg.to_vec()));
    let mut moov = make_box(b"udta", &[]);
    moov.extend(meta_with(b"covr", &[9, 9]));
    assert_eq!(covr_thumbnail(&moov), Some(vec![9, 9]));
    assert_eq!(covr_thumbnail(&make_box(b"free", &[])), None);
}

fn hdlr(handler: &[u8; 4]) -> Vec<u8> {
    let mut body = vec![0u8; 8];
    body.extend_from_slice(handler);
    body.extend_from_slice(&[0u8; 12]);
    make_box(b"hdlr", &body)
}

fn trak(handler: &[u8; 4], width: u32, height: u32) -> Vec<u8> {
    let mut body = make_box(b"tkhd", &build_tkhd(0, width, height));
    body.extend(make_box(b"mdia", &hdlr(handler)));
    make_box(b"trak", &body)
}

#[test]
fn moov_fallback_reads_mvhd_and_first_video_track() {
    let mut moov = make_box(b"mvhd", &build_mvhd(0, 2_082_844_800 + 5, 0, 600, 1200));
    moov.extend(trak(b"soun", 1, 1));
    moov.extend(trak(b"vide", 1920, 1080));
    moov.extend(trak(b"vide", 640, 480));
    assert_eq!(
        read_moov_fallback(&moov),
        Some((Some(1920), Some(1080), Some(2000), Some(5000), None))
    );
    // No video track: no dimensions, timing still there.
    let mut moov = make_box(b"mvhd", &build_mvhd(0, 0, 0, 1000, 10));
    moov.extend(trak(b"soun", 1, 1));
    assert_eq!(read_moov_fallback(&moov), Some((None, None, Some(10), None, None)));
    // No mvhd: nothing.
    assert_eq!(read_moov_fallback(&trak(b"vide", 2, 2)), None);
}

#[test]
fn iso6709_fields_split_lat_lon_only() {
    let f = iso6709_fields("+37.4220-122.0840/").unwrap();
    assert_eq!(f.latitude, b"+37.4220".to_vec());
    assert_eq!(f.longitude, b"-122.0840".to_vec());
    assert_eq!(f.altitude, None);
}

#[test]
fn iso6709_fields_split_with_altitude() {
    let f = iso6709_fields("+27.5916+086.5640+8850/").unwrap();
    assert_eq!(f.latitude, b"+27.5916".to_vec());
    assert_eq!(f.longitude, b"+086.5640".to_vec());
    assert_eq!(f.altitude, Some(b"+8850".to_vec()));
}

#[test]
fn iso6709_fields_split_negative_latitude_and_missing_slash() {
    let f = iso6709_fields("-33.8688+151.2093/").unwrap();
    assert_eq!(f.latitude, b"-33.8688".to_vec());
    assert_eq!(f.longitude, b"+151.2093".to_vec());
    let f = iso6709_fields("  +37.4220-122.0840 ").unwrap();
    assert_eq!(f.latitude, b"+37.4220".to_vec());
    assert_eq!(f.longitude, b"-122.0840".to_vec());
}

#[test]
fn iso6709_fields_reject_empty_and_signless() {
    assert!(iso6709_fields("").is_none());
    assert!(iso6709_fields("/").is_none());
    assert!(iso6709_fields("+37.4220").is_none());
}

#[test]
fn video_meta_uses_header_then_falls_back_to_moov() {
    let mut udta = meta_with(b"\xa9mak", b"Apple");
    udta.extend(meta_with(b"\xa9xyz", b"+1.5-2.5/"));
    let mut moov = make_box(b"udta", &meta_with(b"\xa9mak", b"Apple"));
    moov.extend(make_box(b"mvhd", &build_mvhd(0, 2_082_844_800 + 1, 0, 1000, 3000)));
    moov.extend(trak(b"vide", 320, 240));

    let header = MovieHeader {
        tracks: vec![
            TrackInfo { is_video: false, width: 0, height: 0, media_duration: 9, timescale: 1000 },
            TrackInfo { is_video: true, width: 1280, height: 720, media_duration: 4242 * 90, timescale: 90_000 },
        ],
        creation_time: 2_082_844_800 + 10,
        modification_time: 0,
    };
    let m = video_meta::<&str>(MimeType::Mp4, Ok(header), Some(&moov)).unwrap();
    assert_eq!((m.width, m.height, m.duration_ms), (Some(1280), Some(720), Some(4242)));
    assert_eq!((m.captured_at_ms, m.modified_at_ms), (Some(10_000), None));
    assert_eq!(m.camera_make, Some("Apple".to_string()));
    assert_eq!(m.camera_model, None);

    let m = video_meta(MimeType::QuickTime, Err("bad sound description"), Some(&moov)).unwrap();
    assert_eq!(m.mime_type, MimeType::QuickTime);
    assert_eq!((m.width, m.height, m.duration_ms), (Some(320), Some(240), Some(3000)));
    assert_eq!(m.captured_at_ms, Some(1000));
    assert!(matches!(m.location, Location::Iso6709(None)));

    let e = video_meta(MimeType::Mp4, Err("bad"), Some(&make_box(b"free", &[]))).err();
    assert_eq!(e, Some("bad"));
    assert_eq!(video_meta(MimeType::Mp4, Err("bad"), None).err(), Some("bad"));
}

#[test]
fn video_meta_splits_location_text() {
    let moov = make_box(b"udta", &meta_with(b"\xa9xyz", b"+1.5-2.5+3/"));
    let header = MovieHeader { tracks: vec![], creation_time: 0, modification_time: 0 };
    let m = video_meta::<()>(MimeType::Mp4, Ok(header), Some(&moov)).unwrap();
    assert_eq!((m.width, m.height, m.duration_ms), (None, None, None));
    match m.location {
        Location::Iso6709(Some(f)) => {
            assert_eq!(f.latitude, b"+1.5".to_vec());
            assert_eq!(f.longitude, b"-2.5".to_vec());
            assert_eq!(f.altitude, Some(b"+3".to_vec()));
        }
        _ => panic!("expected an ISO 6709 location"),
    }
}

#[test]
fn video_meta_has_no_duration_for_a_zero_timescale() {
    let header = MovieHeader {
        tracks: vec![TrackInfo { is_video: true, width: 2, height: 2, media_duration: 7, timescale: 0 }],
        creation_time: 0,
        modification_time: 0,
    };
    let m = video_meta::<()>(MimeType::Mp4, Ok(header), None).unwrap();
    assert_eq!((m.width, m.height, m.duration_ms), (Some(2), Some(2), None));
}

/// A complete version-0 `mvhd` box.
fn full_mvhd(creation: u64, timescale: u32, duration: u64) -> Vec<u8> {
    let mut body = build_mvhd(0, creation, 0, timescale, duration);
    body.resize(100, 0);
    make_box(b"mvhd", &body)
}

#[test]
fn read_video_reads_header_then_moov() {
    let ftyp = make_box(b"ftyp", b"isom\0\0\0\0");
    let moov = make_box(b"moov", &full_mvhd(2_082_844_800 + 10, 1000, 5000));
    let mut file = ftyp.clone();
    file.extend_from_slice(&moov);
    let m = read_video(MimeType::Mp4, &file).unwrap();
    assert_eq!(m.mime_type, MimeType::Mp4);
    assert_eq!(m.captured_at_ms, Some(10_000));
    assert_eq!(m.modified_at_ms, None);
    // The header has no video track: no size and no duration.
    assert_eq!((m.width, m.height, m.duration_ms), (None, None, None));
    // Without `ftyp` the mp4 crate refuses the header; `moov` still gives
    // the movie fields.
    let m = read_video(MimeType::QuickTime, &moov).unwrap();
    assert_eq!(m.captured_at_ms, Some(10_000));
    assert_eq!(m.duration_ms, Some(5000));
    assert!(read_video(MimeType::Mp4, b"not a movie at all").is_err());
}

#[test]
fn one_video_track_gives_the_same_fields_in_any_order() {
    let audio = || TrackInfo { is_video: false, width: 0, height: 0, media_duration: 1, timescale: 1 };
    let video = || TrackInfo { is_video: true, width: 640, height: 360, media_duration: 3000, timescale: 1000 };
    let first = MovieHeader { tracks: vec![audio(), video()], creation_time: 0, modification_time: 0 };
    let second = MovieHeader { tracks: vec![video(), audio()], creation_time: 0, modification_time: 0 };
    let a = video_meta::<()>(MimeType::Mp4, Ok(first), None).unwrap();
    let b = video_meta::<()>(MimeType::Mp4, Ok(second), None).unwrap();
    assert_eq!((a.width, a.height, a.duration_ms), (Some(640), Some(360), Some(3000)));
    assert_eq!((a.width, a.height, a.duration_ms), (b.width, b.height, b.duration_ms));
}

#[test]
fn read_video_does_not_hand_a_zero_sized_child_box_to_the_parser() {
    let ftyp = make_box(b"ftyp", b"isom\0\0\0\0");
    let mut moov_body = full_mvhd(2_082_844_800 + 10, 1000, 5000);
    moov_body.extend_from_slice(&[0, 0, 0, 0]);
    moov_body.extend_from_slice(b"junk");
    let mut file = ftyp.clone();
    file.extend_from_slice(&make_box(b"moov", &moov_body));
    // The movie fields still come from walking `moov`.
    let m = read_video(MimeType::Mp4, &file).unwrap();
    assert_eq!(m.captured_at_ms, Some(10_000));
    assert_eq!(m.duration_ms, Some(5000));
    // Without an `mvhd` there is nothing to fall back on.
    let mut file = ftyp.clone();
    file.extend_from_slice(&make_box(b"moov", &[0, 0, 0, 0, b'j', b'u', b'n', b'k']));
    assert!(matches!(read_video(MimeType::Mp4, &file), Err(MovieError::UnsoundBoxes)));
    assert!(matches!(read_video(MimeType::Mp4, b"not a movie at all"), Err(MovieError::Header(_))));
}

#[test]
fn movie_boxes_check_admits_sound_files_only() {
    let ftyp = make_box(b"ftyp", b"isom\0\0\0\0");
    let with_moov = |body: &[u8]| {
        let mut f = ftyp.clone();
        f.extend(make_box(b"moov", body));
        f
    };
    let mvhd = full_mvhd(1, 1000, 1);
    assert!(movie_boxes_check(&with_moov(&mvhd)));
    // Cover art under udta > meta > ilst, each box tiling its parent.
    let mut body = mvhd.clone();
    body.extend(make_box(b"udta", &meta_with(b"covr", &[1, 2, 3])));
    assert!(movie_boxes_check(&with_moov(&body)));
    // A child of size 0, and bytes left over after the last child.
    let mut zero = mvhd.clone();
    zero.extend_from_slice(&[0, 0, 0, 0, b'f', b'r', b'e', b'e']);
    assert!(!movie_boxes_check(&with_moov(&zero)));
    let mut left = mvhd.clone();
    left.extend_from_slice(&[0, 0, 0]);
    assert!(!movie_boxes_check(&with_moov(&left)));
    // An item's `data` box shorter than 16 bytes.
    let short = make_box(b"ilst", &make_box(b"covr", &make_box(b"data", &[0, 0, 0, 1])));
    let mut meta = vec![0, 0, 0, 0];
    meta.extend(short);
    let mut body = mvhd.clone();
    body.extend(make_box(b"udta", &make_box(b"meta", &meta)));
    assert!(!movie_boxes_check(&with_moov(&body)));
    // A top-level `emsg` box is not handed to the parser.
    let mut f = with_moov(&mvhd);
    f.extend(make_box(b"emsg", &[0; 8]));
    assert!(!movie_boxes_check(&f));
    // A large `mdat` with a 64-bit size is stepped over.
    let mut f = ftyp.clone();
    f.extend_from_slice(&[0, 0, 0, 1]);
    f.extend_from_slice(b"mdat");
    f.extend_from_slice(&20u64.to_be_bytes());
    f.extend_from_slice(&[0; 4]);
    f.extend(make_box(b"moov", &mvhd));
    assert!(movie_boxes_check(&f));
    assert!(movie_boxes_check(b"not a movie"));
}

#[test]
fn thumbnail_source_prefers_cover_art() {
    let jpeg = [0xFFu8, 0xD8, 0xFF, 0xE0];
    let moov = make_box(b"udta", &meta_with(b"covr", &jpeg));
    match thumbnail_source(MimeType::Mp4, Some(&moov)) {
        ThumbnailSource::CoverArt(b) => assert_eq!(b, jpeg.to_vec()),
        _ => panic!("expected cover art"),
    }
    assert!(matches!(
        thumbnail_source(MimeType::QuickTime, Some(&make_box(b"free", &[]))),
        ThumbnailSource::DecodedFrame
    ));
    assert!(matches!(thumbnail_source(MimeType::Mp4, None), ThumbnailSource::DecodedFrame));
    assert!(matches!(thumbnail_source(MimeType::Jpeg, Some(&moov)), ThumbnailSource::Unsupported));
}
