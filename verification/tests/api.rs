use media_metadata_plus::api::{metadata_reader, thumbnail_supported, MetadataReader};
use media_metadata_plus::mime::MimeType;

#[test]
fn metadata_reader_dispatches_by_media_type() {
    for mime in [
        MimeType::Jpeg,
        MimeType::Heic,
        MimeType::Heif,
        MimeType::Png,
        MimeType::Webp,
        MimeType::Tiff,
        MimeType::CanonCr2,
    ] {
        assert_eq!(metadata_reader(mime), Some(MetadataReader::Exif));
    }
    assert_eq!(metadata_reader(MimeType::Mp4), Some(MetadataReader::Video));
    assert_eq!(metadata_reader(MimeType::QuickTime), Some(MetadataReader::Video));
    assert_eq!(metadata_reader(MimeType::OctetStream), None);
}

#[test]
fn thumbnails_only_for_mp4_and_quicktime() {
    assert!(thumbnail_supported(MimeType::Mp4));
    assert!(thumbnail_supported(MimeType::QuickTime));
    assert!(!thumbnail_supported(MimeType::Heic));
    assert!(!thumbnail_supported(MimeType::OctetStream));
}
