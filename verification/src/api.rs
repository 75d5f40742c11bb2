//! What a read of a media file yields, and which reader handles which media
//! type.
use vstd::prelude::*;
use crate::mime::MimeType;
use crate::readers::exif::{GpsAltitude, GpsDms};
use crate::readers::video::{covr_bytes, covr_thumbnail, Iso6709Fields};

verus! {

/// The GPS position that EXIF tags give, in degrees, minutes and seconds.
pub struct ExifGps {
    pub latitude: Option<GpsDms>,
    pub longitude: Option<GpsDms>,
    pub altitude: Option<GpsAltitude>,
}

/// Where a file says it was recorded.
pub enum Location {
    /// From EXIF GPS tags (images).
    Exif(ExifGps),
    /// From an ISO 6709 `\xa9xyz` text atom (videos).
    Iso6709(Option<Iso6709Fields>),
}

/// The metadata read from one media file.
pub struct MediaInfo {
    pub mime_type: MimeType,
    pub width: Option<u32>,
    pub height: Option<u32>,
    /// Capture time, Unix milliseconds (UTC).
    pub captured_at_ms: Option<i64>,
    /// Last-modified time, Unix milliseconds (UTC).
    pub modified_at_ms: Option<i64>,
    pub camera_make: Option<String>,
    pub camera_model: Option<String>,
    pub location: Location,
    pub duration_ms: Option<u64>,
}

/// The two readers of metadata.
#[derive(Clone, Copy, Debug, PartialEq, Eq, Structural)]
pub enum MetadataReader {
    /// EXIF: JPEG, HEIC/HEIF, PNG, WebP, TIFF and the TIFF-based raw formats.
    Exif,
    /// The MP4 / QuickTime box tree.
    Video,
}

/// The reader for a media type; `None` for an unsupported one.
pub open spec fn reader_for(mime: MimeType) -> Option<MetadataReader> {
    match mime {
        MimeType::Jpeg | MimeType::Heic | MimeType::Heif | MimeType::Png | MimeType::Webp
        | MimeType::Tiff | MimeType::CanonCr2 => Some(MetadataReader::Exif),
        MimeType::Mp4 | MimeType::QuickTime => Some(MetadataReader::Video),
        MimeType::OctetStream => None,
    }
}

/// Which reader handles a media type (`None`: unsupported format).
pub fn metadata_reader(mime: MimeType) -> (r: Option<MetadataReader>)
    ensures
        r == reader_for(mime),
{
    match mime {
        MimeType::Jpeg | MimeType::Heic | MimeType::Heif | MimeType::Png | MimeType::Webp
        | MimeType::Tiff | MimeType::CanonCr2 => Some(MetadataReader::Exif),
        MimeType::Mp4 | MimeType::QuickTime => Some(MetadataReader::Video),
        MimeType::OctetStream => None,
    }
}

/// Whether thumbnails can be extracted from a media type: MP4 and MOV only.
pub fn thumbnail_supported(mime: MimeType) -> (r: bool)
    ensures
        r == (mime == MimeType::Mp4 || mime == MimeType::QuickTime),
{
    match mime {
        MimeType::Mp4 | MimeType::QuickTime => true,
        _ => false,
    }
}

/// Where the thumbnail of a file comes from.
pub enum ThumbnailSource {
    /// Thumbnails are not extracted from files of this media type.
    Unsupported,
    /// The cover art embedded in the file's `moov` box.
    CoverArt(Vec<u8>),
    /// A frame to be decoded from the video.
    DecodedFrame,
}

/// The cover art that an optional `moov` body holds.
pub open spec fn moov_cover_art(moov: Option<Seq<u8>>) -> Option<Seq<u8>> {
    match moov {
        Some(m) => covr_bytes(m),
        None => None,
    }
}

/// Choose the thumbnail of a file of type `mime` whose top-level `moov`
/// body is `moov`: MP4 and MOV only; the embedded cover art when there is
/// one, else a decoded frame.
pub fn thumbnail_source(mime: MimeType, moov: Option<&[u8]>) -> (r: ThumbnailSource)
    ensures
        !(mime == MimeType::Mp4 || mime == MimeType::QuickTime) ==> r is Unsupported,
        (mime == MimeType::Mp4 || mime == MimeType::QuickTime) ==> match moov_cover_art(
            match moov {
                Some(m) => Some(m@),
                None => None,
            },
        ) {
            Some(b) => r matches ThumbnailSource::CoverArt(v) && v@ == b,
            None => r is DecodedFrame,
        },
{
    if !thumbnail_supported(mime) {
        return ThumbnailSource::Unsupported;
    }
    let art = match moov {
        Some(m) => covr_thumbnail(m),
        None => None,
    };
    match art {
        Some(b) => ThumbnailSource::CoverArt(b),
        None => ThumbnailSource::DecodedFrame,
    }
}

} // verus!
