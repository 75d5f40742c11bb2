//! Media type detection from the first bytes of a file (magic bytes), not
//! from its extension.
use vstd::prelude::*;

verus! {

/// The media types that detection can report.
#[derive(Clone, Copy, Debug, PartialEq, Eq, Structural)]
pub enum MimeType {
    Jpeg,
    Heic,
    Heif,
    Mp4,
    QuickTime,
    Png,
    Webp,
    /// Generic TIFF, and the TIFF-based raw formats DNG, NEF and ARW.
    Tiff,
    CanonCr2,
    /// Anything not recognised.
    OctetStream,
}

impl MimeType {
    /// The MIME type string.
    pub open spec fn spec_str(self) -> Seq<char> {
        match self {
            MimeType::Jpeg => "image/jpeg"@,
            MimeType::Heic => "image/heic"@,
            MimeType::Heif => "image/heif"@,
            MimeType::Mp4 => "video/mp4"@,
            MimeType::QuickTime => "video/quicktime"@,
            MimeType::Png => "image/png"@,
            MimeType::Webp => "image/webp"@,
            MimeType::Tiff => "image/tiff"@,
            MimeType::CanonCr2 => "image/x-canon-cr2"@,
            MimeType::OctetStream => "application/octet-stream"@,
        }
    }

    /// The MIME type string, such as `"image/heic"`.
    pub fn as_str(&self) -> (r: &'static str)
        ensures
            r@ == self.spec_str(),
    {
        match self {
            MimeType::Jpeg => "image/jpeg",
            MimeType::Heic => "image/heic",
            MimeType::Heif => "image/heif",
            MimeType::Mp4 => "video/mp4",
            MimeType::QuickTime => "video/quicktime",
            MimeType::Png => "image/png",
            MimeType::Webp => "image/webp",
            MimeType::Tiff => "image/tiff",
            MimeType::CanonCr2 => "image/x-canon-cr2",
            MimeType::OctetStream => "application/octet-stream",
        }
    }
}

/// Whether the four bytes of `s` at `i` are `a b c d`.
pub open spec fn bytes4(s: Seq<u8>, i: int, a: u8, b: u8, c: u8, d: u8) -> bool {
    s[i] == a && s[i + 1] == b && s[i + 2] == c && s[i + 3] == d
}

pub(crate) fn eq4(s: &[u8], i: usize, a: u8, b: u8, c: u8, d: u8) -> (r: bool)
    requires
        i + 4 <= s@.len(),
    ensures
        r == bytes4(s@, i as int, a, b, c, d),
{
    s[i] == a && s[i + 1] == b && s[i + 2] == c && s[i + 3] == d
}

/// The media type named by the major brand of an `ftyp` box, the four bytes
/// of `buf` at offset 8. An unknown brand counts as MP4.
pub open spec fn ftyp_mime(buf: Seq<u8>) -> MimeType {
    if bytes4(buf, 8, 0x68, 0x65, 0x69, 0x63)  // heic
     || bytes4(buf, 8, 0x68, 0x65, 0x69, 0x78)  // heix
     || bytes4(buf, 8, 0x68, 0x65, 0x69, 0x6d)  // heim
     || bytes4(buf, 8, 0x68, 0x65, 0x69, 0x73) {  // heis
        MimeType::Heic
    } else if bytes4(buf, 8, 0x6d, 0x69, 0x66, 0x31)  // mif1
     || bytes4(buf, 8, 0x6d, 0x73, 0x66, 0x31) {  // msf1
        MimeType::Heif
    } else if bytes4(buf, 8, 0x71, 0x74, 0x20, 0x20) {  // "qt  "
        MimeType::QuickTime
    } else {
        // mp41, mp42, isom, "M4V " and every other brand
        MimeType::Mp4
    }
}

/// The media type of a little-endian TIFF header: Canon CR2 carries `CR` at
/// bytes 8-9; NEF, ARW, DNG and generic TIFF cannot be told apart here.
pub open spec fn tiff_le_mime(buf: Seq<u8>) -> MimeType {
    if buf.len() >= 10 && buf[8] == 0x43 && buf[9] == 0x52 {
        MimeType::CanonCr2
    } else {
        MimeType::Tiff
    }
}

/// The media type of a file whose first bytes are `buf` (zero-filled to 16).
pub open spec fn header_mime(buf: Seq<u8>) -> MimeType {
    if buf[0] == 0xff && buf[1] == 0xd8 && buf[2] == 0xff {
        MimeType::Jpeg
    } else if bytes4(buf, 4, 0x66, 0x74, 0x79, 0x70) {  // ftyp
        ftyp_mime(buf)
    } else if bytes4(buf, 0, 0x89, 0x50, 0x4e, 0x47) && bytes4(buf, 4, 0x0d, 0x0a, 0x1a, 0x0a) {
        MimeType::Png
    } else if bytes4(buf, 0, 0x52, 0x49, 0x46, 0x46)  // RIFF
     && bytes4(buf, 8, 0x57, 0x45, 0x42, 0x50) {  // WEBP
        MimeType::Webp
    } else if bytes4(buf, 0, 0x49, 0x49, 0x2a, 0x00) {  // II*\0
        tiff_le_mime(buf)
    } else if bytes4(buf, 0, 0x4d, 0x4d, 0x00, 0x2a) {  // MM\0*
        MimeType::Tiff
    } else {
        MimeType::OctetStream
    }
}

/// Distinguish TIFF little-endian variants by additional identifier bytes.
pub fn detect_tiff_le(buf: &[u8]) -> (r: MimeType)
    ensures
        r == tiff_le_mime(buf@),
{
    if buf.len() >= 10 && buf[8] == 0x43 && buf[9] == 0x52 {
        MimeType::CanonCr2
    } else {
        MimeType::Tiff
    }
}

/// The media type named by the major brand of an `ftyp` box at offset 4.
pub fn detect_ftyp(buf: &[u8]) -> (r: MimeType)
    requires
        buf@.len() >= 12,
    ensures
        r == ftyp_mime(buf@),
{
    if eq4(buf, 8, 0x68, 0x65, 0x69, 0x63) || eq4(buf, 8, 0x68, 0x65, 0x69, 0x78) || eq4(
        buf,
        8,
        0x68,
        0x65,
        0x69,
        0x6d,
    ) || eq4(buf, 8, 0x68, 0x65, 0x69, 0x73) {
        MimeType::Heic
    } else if eq4(buf, 8, 0x6d, 0x69, 0x66, 0x31) || eq4(buf, 8, 0x6d, 0x73, 0x66, 0x31) {
        MimeType::Heif
    } else if eq4(buf, 8, 0x71, 0x74, 0x20, 0x20) {
        MimeType::QuickTime
    } else {
        MimeType::Mp4
    }
}

/// Detect the media type from the first 16 bytes of a file. A file shorter
/// than 16 bytes is given here zero-filled to 16.
pub fn detect_header(buf: &[u8]) -> (r: MimeType)
    requires
        buf@.len() == 16,
    ensures
        r == header_mime(buf@),
{
    if buf[0] == 0xff && buf[1] == 0xd8 && buf[2] == 0xff {
        MimeType::Jpeg
    } else if eq4(buf, 4, 0x66, 0x74, 0x79, 0x70) {
        detect_ftyp(buf)
    } else if eq4(buf, 0, 0x89, 0x50, 0x4e, 0x47) && eq4(buf, 4, 0x0d, 0x0a, 0x1a, 0x0a) {
        MimeType::Png
    } else if eq4(buf, 0, 0x52, 0x49, 0x46, 0x46) && eq4(buf, 8, 0x57, 0x45, 0x42, 0x50) {
        MimeType::Webp
    } else if eq4(buf, 0, 0x49, 0x49, 0x2a, 0x00) {
        detect_tiff_le(buf)
    } else if eq4(buf, 0, 0x4d, 0x4d, 0x00, 0x2a) {
        MimeType::Tiff
    } else {
        MimeType::OctetStream
    }
}

} // verus!
