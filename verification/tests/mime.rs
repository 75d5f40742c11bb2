use media_metadata_plus::mime::{detect_ftyp, detect_header, detect_tiff_le, MimeType};

fn ftyp_buf(brand: &[u8; 4]) -> [u8; 16] {
    let mut buf = [0u8; 16];
    buf[4..8].copy_from_slice(b"ftyp");
    buf[8..12].copy_from_slice(brand);
    buf
}

#[test]
fn detect_ftyp_recognizes_heic_variants() {
    for brand in [b"heic", b"heix", b"heim", b"heis"] {
        assert_eq!(detect_ftyp(&ftyp_buf(brand)).as_str(), "image/heic");
    }
}

#[test]
fn detect_ftyp_recognizes_heif_variants() {
    for brand in [b"mif1", b"msf1"] {
        assert_eq!(detect_ftyp(&ftyp_buf(brand)).as_str(), "image/heif");
    }
}

#[test]
fn detect_ftyp_recognizes_mp4_variants() {
    for brand in [b"mp41", b"mp42", b"isom", b"M4V "] {
        assert_eq!(detect_ftyp(&ftyp_buf(brand)).as_str(), "video/mp4");
    }
}

#[test]
fn detect_ftyp_recognizes_quicktime() {
    assert_eq!(detect_ftyp(&ftyp_buf(b"qt  ")).as_str(), "video/quicktime");
}

#[test]
fn detect_ftyp_defaults_unknown_brand_to_mp4() {
    assert_eq!(detect_ftyp(&ftyp_buf(b"xyz1")).as_str(), "video/mp4");
}

#[test]
fn detect_tiff_le_recognizes_cr2() {
    let mut buf = [0u8; 16];
    buf[0..4].copy_from_slice(b"II\x2a\x00");
    buf[8..10].copy_from_slice(b"CR");
    assert_eq!(detect_tiff_le(&buf).as_str(), "image/x-canon-cr2");
}

#[test]
fn detect_tiff_le_defaults_to_generic_tiff() {
    // NEF/ARW/DNG/generic TIFF are indistinguishable at this level.
    let buf = [0u8; 16];
    assert_eq!(detect_tiff_le(&buf).as_str(), "image/tiff");
}

/// The first 16 bytes of a file holding `bytes`, zero-filled as a read of
/// a short file leaves them.
fn detect_bytes(bytes: &[u8]) -> String {
    let mut buf = [0u8; 16];
    let n = bytes.len().min(16);
    buf[..n].copy_from_slice(&bytes[..n]);
    detect_header(&buf).as_str().to_string()
}

#[test]
fn detect_recognizes_jpeg_png_webp_tiff_and_unknown() {
    assert_eq!(detect_bytes(&[0xFF, 0xD8, 0xFF, 0xE0]), "image/jpeg");
    assert_eq!(
        detect_bytes(b"\x89PNG\r\n\x1a\n\x00\x00\x00\x00"),
        "image/png"
    );
    let mut webp = b"RIFF".to_vec();
    webp.extend_from_slice(&[0, 0, 0, 0]);
    webp.extend_from_slice(b"WEBP");
    assert_eq!(detect_bytes(&webp), "image/webp");
    assert_eq!(detect_bytes(b"MM\x00\x2a\x00\x00\x00\x08"), "image/tiff");
    assert_eq!(
        detect_bytes(b"not a media file"),
        "application/octet-stream"
    );
}

#[test]
fn detect_header_reads_ftyp_and_little_endian_tiff() {
    assert_eq!(detect_header(&ftyp_buf(b"heic")), MimeType::Heic);
    assert_eq!(detect_header(&ftyp_buf(b"qt  ")), MimeType::QuickTime);
    let mut cr2 = [0u8; 16];
    cr2[0..4].copy_from_slice(b"II\x2a\x00");
    cr2[8..10].copy_from_slice(b"CR");
    assert_eq!(detect_header(&cr2), MimeType::CanonCr2);
    let mut tiff = [0u8; 16];
    tiff[0..4].copy_from_slice(b"II\x2a\x00");
    assert_eq!(detect_header(&tiff), MimeType::Tiff);
    // JPEG wins over an ftyp tag later in the header.
    let mut jpeg = ftyp_buf(b"heic");
    jpeg[0..3].copy_from_slice(&[0xFF, 0xD8, 0xFF]);
    assert_eq!(detect_header(&jpeg), MimeType::Jpeg);
    // RIFF without WEBP is not WebP.
    let mut riff = [0u8; 16];
    riff[0..4].copy_from_slice(b"RIFF");
    riff[8..12].copy_from_slice(b"WAVE");
    assert_eq!(detect_header(&riff), MimeType::OctetStream);
}

#[test]
fn empty_file_is_octet_stream() {
    assert_eq!(detect_bytes(&[]), "application/octet-stream");
}
