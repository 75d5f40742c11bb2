//! MP4 / QuickTime metadata: movie header timing, track dimensions, and the
//! iTunes / 3GPP text and cover-art atoms under `moov`.
use vstd::prelude::*;
use vstd::multiset::Multiset;
use vstd::string::StringSliceAdditionalSpecFns;
use vstd::utf8::encode_utf8;
use crate::api::{Location, MediaInfo};
use crate::bytes::{
    be_u16, be_u32, be_u64, has_tag_at, spec_be_u16, spec_be_u32, spec_be_u64, tag_at,
};
use crate::container::isobmff::{
    all_children, box_bytes, file_scan, find_all_child_boxes, find_child_box, find_top_level_box,
    first_child, law_front_box_is_found, law_other_front_box_is_skipped, opt_bytes, slices_bytes,
};
use crate::fourcc;
use crate::fourcc::{
    tag_atom_mak, tag_atom_mod, tag_atom_xyz, tag_covr, tag_data, tag_hdlr, tag_ilst, tag_mdia,
    tag_meta, tag_moov, tag_mvhd, tag_tkhd, tag_trak, tag_udta, tag_vide,
};
use crate::mime::MimeType;
use crate::readers::movie_boxes::{movie_boxes_check, movie_boxes_sound};
use crate::text::{trim_chars, trim_str, utf8_nonempty, utf8_text};

verus! {

/// Seconds from the MP4 epoch (1904-01-01) to the Unix epoch.
pub const MP4_EPOCH_OFFSET: u64 = 2082844800;

/// A movie-header time (seconds since 1904-01-01) as Unix milliseconds; zero
/// means unset. Times before 1970 count as 1970; the product by 1000 wraps
/// in 64 bits.
pub open spec fn mp4_time_ms(raw: u64) -> Option<i64> {
    if raw == 0 {
        None
    } else {
        let secs: u64 = if raw > MP4_EPOCH_OFFSET {
            (raw - MP4_EPOCH_OFFSET) as u64
        } else {
            0
        };
        Some(vstd::wrapping::u64_specs::wrapping_mul(secs, 1000) as i64)
    }
}

/// Convert a movie-header time to Unix milliseconds (`None` for zero).
pub fn mp4_timestamp(raw: u64) -> (r: Option<i64>)
    ensures
        r == mp4_time_ms(raw),
        raw != 0 && raw <= MP4_EPOCH_OFFSET ==> r == Some(0i64),
        raw > MP4_EPOCH_OFFSET && raw - MP4_EPOCH_OFFSET <= i64::MAX / 1000 ==> r == Some(
            ((raw - MP4_EPOCH_OFFSET) * 1000) as i64,
        ),
{
    if raw == 0 {
        return None;
    }
    let unix_secs = raw.saturating_sub(MP4_EPOCH_OFFSET);
    Some(unix_secs.wrapping_mul(1000) as i64)
}

/// `duration` ticks of `timescale` per second, in milliseconds (the tick
/// count times 1000 saturates at `u64::MAX`); `None` for a zero timescale.
pub open spec fn duration_ms(duration: u64, timescale: u32) -> Option<u64> {
    if timescale == 0 {
        None
    } else {
        let scaled: u64 = if duration > u64::MAX / 1000 {
            u64::MAX
        } else {
            (duration * 1000) as u64
        };
        Some((scaled / (timescale as u64)) as u64)
    }
}

/// The (creation, modification, duration) that an `mvhd` body holds:
/// version 1 has 64-bit times and duration, any other version 32-bit ones.
pub open spec fn mvhd_fields(m: Seq<u8>) -> Option<(Option<i64>, Option<i64>, Option<u64>)> {
    if m.len() == 0 {
        None
    } else if m[0] == 1 {
        if m.len() < 32 {
            None
        } else {
            Some(
                (
                    mp4_time_ms(spec_be_u64(m, 4) as u64),
                    mp4_time_ms(spec_be_u64(m, 12) as u64),
                    duration_ms(spec_be_u64(m, 24) as u64, spec_be_u32(m, 20) as u32),
                ),
            )
        }
    } else {
        if m.len() < 20 {
            None
        } else {
            Some(
                (
                    mp4_time_ms(spec_be_u32(m, 4) as u64),
                    mp4_time_ms(spec_be_u32(m, 8) as u64),
                    duration_ms(spec_be_u32(m, 16) as u64, spec_be_u32(m, 12) as u32),
                ),
            )
        }
    }
}

/// Parse `moov > mvhd` (a FullBox): returns (creation_time, modification_time, duration_ms).
pub fn parse_mvhd(mvhd: &[u8]) -> (r: Option<(Option<i64>, Option<i64>, Option<u64>)>)
    ensures
        r == mvhd_fields(mvhd@),
{
    if mvhd.len() == 0 {
        return None;
    }
    let version = mvhd[0];
    let (creation_raw, modification_raw, timescale, duration_raw) = if version == 1 {
        if mvhd.len() < 32 {
            return None;
        }
        (be_u64(mvhd, 4), be_u64(mvhd, 12), be_u32(mvhd, 20), be_u64(mvhd, 24))
    } else {
        if mvhd.len() < 20 {
            return None;
        }
        (be_u32(mvhd, 4) as u64, be_u32(mvhd, 8) as u64, be_u32(mvhd, 12), be_u32(mvhd, 16) as u64)
    };
    let duration_ms = if timescale > 0 {
        let scaled = if duration_raw > u64::MAX / 1000 {
            u64::MAX
        } else {
            duration_raw * 1000
        };
        Some(scaled / timescale as u64)
    } else {
        None
    };
    Some((mp4_timestamp(creation_raw), mp4_timestamp(modification_raw), duration_ms))
}

/// The pixel (width, height) of a `tkhd` body: the integer parts of its
/// 16.16 fixed-point width and height, which follow the version-dependent
/// block and 52 bytes of layer, volume and matrix fields.
pub open spec fn tkhd_dims(t: Seq<u8>) -> Option<(u32, u32)> {
    if t.len() == 0 {
        None
    } else {
        let off: int = if t[0] == 1 {
            88int
        } else {
            76int
        };
        if t.len() < off + 8 {
            None
        } else {
            Some(((spec_be_u32(t, off) / 0x1_0000) as u32, (spec_be_u32(t, off + 4) / 0x1_0000) as u32))
        }
    }
}

/// Parse `trak > tkhd` (a FullBox) for pixel width/height (fixed-point 16.16).
pub fn parse_tkhd_dimensions(tkhd: &[u8]) -> (r: Option<(u32, u32)>)
    ensures
        r == tkhd_dims(tkhd@),
{
    if tkhd.len() == 0 {
        return None;
    }
    let version = tkhd[0];
    let version_block_len: usize = if version == 1 {
        32
    } else {
        20
    };
    let dims_offset: usize = 4 + version_block_len + 52;
    if tkhd.len() < dims_offset + 8 {
        return None;
    }
    let width_raw = be_u32(tkhd, dims_offset);
    let height_raw = be_u32(tkhd, dims_offset + 4);
    assert(width_raw >> 16 == width_raw / 0x1_0000) by (bit_vector);
    assert(height_raw >> 16 == height_raw / 0x1_0000) by (bit_vector);
    Some((width_raw >> 16, height_raw >> 16))
}

/// The text of a 3GPP text atom body (16-bit text length, 16-bit language,
/// UTF-8 text): the declared length of text when it is non-zero and fits,
/// else, or when that text is blank, everything after the 4-byte header.
pub open spec fn text_3gpp(d: Seq<u8>) -> Option<Seq<char>> {
    if d.len() < 4 {
        None
    } else {
        let n = spec_be_u16(d, 0);
        let declared = if n > 0 && 4 + n <= d.len() {
            utf8_text(d.subrange(4, 4 + n))
        } else {
            None
        };
        if declared is Some {
            declared
        } else {
            utf8_text(d.subrange(4, d.len() as int))
        }
    }
}

/// Parse a 3GPP text atom payload: uint16 text-length, uint16 language, UTF-8 text.
pub fn parse_3gpp_text(data: &[u8]) -> (r: Option<String>)
    ensures
        r.deep_view() == text_3gpp(data@),
{
    if data.len() >= 4 {
        let declared_len = be_u16(data, 0) as usize;
        if declared_len > 0 && 4 + declared_len <= data.len() {
            if let Some(s) = utf8_nonempty(vstd::slice::slice_subrange(data, 4, 4 + declared_len)) {
                return Some(s);
            }
        }
        if let Some(s) = utf8_nonempty(vstd::slice::slice_subrange(data, 4, data.len())) {
            return Some(s);
        }
    }
    None
}

/// The body of the `data` box of `<meta-children> > ilst > <atom> > data`.
pub open spec fn ilst_data(meta_children: Seq<u8>, atom: Seq<u8>) -> Option<Seq<u8>> {
    match first_child(meta_children, tag_ilst()) {
        None => None,
        Some(ilst) => match first_child(ilst, atom) {
            None => None,
            Some(a) => first_child(a, tag_data()),
        },
    }
}

/// The text of an iTunes `data` box: after its 4-byte type and 4-byte locale.
pub open spec fn ilst_text(meta_children: Seq<u8>, atom: Seq<u8>) -> Option<Seq<char>> {
    match ilst_data(meta_children, atom) {
        None => None,
        Some(d) => if d.len() >= 8 {
            utf8_text(d.subrange(8, d.len() as int))
        } else {
            None
        },
    }
}

/// The non-empty payload of an iTunes `data` box, after its 8-byte prefix.
pub open spec fn ilst_bytes(meta_children: Seq<u8>, atom: Seq<u8>) -> Option<Seq<u8>> {
    match ilst_data(meta_children, atom) {
        None => None,
        Some(d) => if d.len() > 8 {
            Some(d.subrange(8, d.len() as int))
        } else {
            None
        },
    }
}

/// The children of a `meta` FullBox body, after its 4-byte version and flags
/// (the whole body when it is shorter than that).
pub open spec fn meta_children(m: Seq<u8>) -> Seq<u8> {
    if m.len() >= 4 {
        m.subrange(4, m.len() as int)
    } else {
        m
    }
}

/// The text of `<container> > meta > ilst > <atom> > data`.
pub open spec fn ilst_atom_text(container: Seq<u8>, atom: Seq<u8>) -> Option<Seq<char>> {
    match first_child(container, tag_meta()) {
        None => None,
        Some(m) => if m.len() >= 4 {
            ilst_text(m.subrange(4, m.len() as int), atom)
        } else {
            None
        },
    }
}

fn ilst_data_box<'a>(meta_children: &'a [u8], atom_name: &[u8; 4]) -> (r: Option<&'a [u8]>)
    ensures
        opt_bytes(r) == ilst_data(meta_children@, atom_name@),
{
    let ilst = match find_child_box(meta_children, &fourcc::ilst()) {
        Some(b) => b,
        None => return None,
    };
    let atom = match find_child_box(ilst, atom_name) {
        Some(b) => b,
        None => return None,
    };
    find_child_box(atom, &fourcc::data())
}

/// Read from: <container> > meta > ilst > <atom> > data  (meta is a FullBox).
pub fn read_ilst_atom(container: &[u8], atom_name: &[u8; 4]) -> (r: Option<String>)
    ensures
        r.deep_view() == ilst_atom_text(container@, atom_name@),
{
    let meta = match find_child_box(container, &fourcc::meta()) {
        Some(b) => b,
        None => return None,
    };
    if meta.len() < 4 {
        return None;
    }
    read_ilst_text(vstd::slice::slice_subrange(meta, 4, meta.len()), atom_name)
}

/// Read from: <meta-children> > ilst > <atom> > data.
pub fn read_ilst_text(meta_children: &[u8], atom_name: &[u8; 4]) -> (r: Option<String>)
    ensures
        r.deep_view() == ilst_text(meta_children@, atom_name@),
{
    let data = match ilst_data_box(meta_children, atom_name) {
        Some(b) => b,
        None => return None,
    };
    if data.len() < 8 {
        return None;
    }
    utf8_nonempty(vstd::slice::slice_subrange(data, 8, data.len()))
}

/// Read raw bytes from: <meta-children> > ilst > <atom> > data.
pub fn read_ilst_bytes(meta_children: &[u8], atom_name: &[u8; 4]) -> (r: Option<Vec<u8>>)
    ensures
        r.deep_view() == ilst_bytes(meta_children@, atom_name@),
{
    let data = match ilst_data_box(meta_children, atom_name) {
        Some(b) => b,
        None => return None,
    };
    if data.len() <= 8 {
        return None;
    }
    Some(vstd::slice::slice_to_vec(vstd::slice::slice_subrange(data, 8, data.len())))
}

fn meta_body<'a>(meta: &'a [u8]) -> (r: &'a [u8])
    ensures
        r@ == meta_children(meta@),
{
    if meta.len() >= 4 {
        vstd::slice::slice_subrange(meta, 4, meta.len())
    } else {
        meta
    }
}

/// The text value of the atom `atom` under a `moov` body, looked up in three
/// places in order:
///   1. moov > udta > meta > ilst > <atom> > data  (iTunes/Apple)
///   2. moov > udta > <atom>                        (3GPP, many Android cameras)
///   3. moov > meta > ilst > <atom> > data          (iTunes without udta wrapper)
pub open spec fn itunes_text(moov: Seq<u8>, atom: Seq<u8>) -> Option<Seq<char>> {
    let from_udta = match first_child(moov, tag_udta()) {
        None => None,
        Some(u) => {
            let p1 = ilst_atom_text(u, atom);
            if p1 is Some {
                p1
            } else {
                match first_child(u, atom) {
                    None => None,
                    Some(a) => text_3gpp(a),
                }
            }
        },
    };
    if from_udta is Some {
        from_udta
    } else {
        match first_child(moov, tag_meta()) {
            None => None,
            Some(m) => ilst_text(meta_children(m), atom),
        }
    }
}

/// The text of a `moov` body that starts with a `udta` box: the iTunes
/// atom under `udta` > `meta` > `ilst` when it gives text, whatever follows;
/// else the 3GPP atom directly under `udta` when it gives text.
pub proof fn law_udta_text_comes_first(u: Seq<u8>, rest: Seq<u8>, atom: Seq<u8>)
    requires
        u.len() + 8 <= u32::MAX,
    ensures
        ilst_atom_text(u, atom) is Some ==> itunes_text(box_bytes(tag_udta(), u) + rest, atom)
            == ilst_atom_text(u, atom),
        ilst_atom_text(u, atom) is None && first_child(u, atom) is Some && text_3gpp(
            first_child(u, atom).unwrap(),
        ) is Some ==> itunes_text(box_bytes(tag_udta(), u) + rest, atom) == text_3gpp(
            first_child(u, atom).unwrap(),
        ),
{
    law_front_box_is_found(tag_udta(), u, rest);
}

/// A `moov` body whose `udta` holds neither a `meta` box nor the atom
/// itself, followed by a `meta` > `ilst` > atom > `data` box with text `t`
/// after the data box's 8-byte type and locale, gives the text of `t`: the
/// wrapper-less iTunes atom is looked at whenever the `udta` gives nothing.
pub proof fn law_bare_meta_text_after_empty_udta(
    u: Seq<u8>,
    atom: Seq<u8>,
    prefix: Seq<u8>,
    t: Seq<u8>,
)
    requires
        atom.len() == 4,
        prefix.len() == 8,
        u.len() + 8 <= u32::MAX,
        t.len() + 64 <= u32::MAX,
        first_child(u, tag_meta()) is None,
        first_child(u, atom) is None,
    ensures
        itunes_text(
            box_bytes(tag_udta(), u) + box_bytes(
                tag_meta(),
                seq![0u8, 0, 0, 0] + box_bytes(
                    tag_ilst(),
                    box_bytes(atom, box_bytes(tag_data(), prefix + t)),
                ),
            ),
            atom,
        ) == utf8_text(t),
{
    let empty = Seq::<u8>::empty();
    let data = box_bytes(tag_data(), prefix + t);
    let item = box_bytes(atom, data);
    let ilst = box_bytes(tag_ilst(), item);
    let mbody = seq![0u8, 0, 0, 0] + ilst;
    let meta = box_bytes(tag_meta(), mbody);
    let udta = box_bytes(tag_udta(), u);
    let moov = udta + meta;
    assert(tag_udta()[0] != tag_meta()[0]);
    assert(tag_udta() != tag_meta());
    law_front_box_is_found(tag_udta(), u, meta);
    law_other_front_box_is_skipped(tag_udta(), u, meta, tag_meta());
    assert(meta + empty =~= meta);
    law_front_box_is_found(tag_meta(), mbody, empty);
    assert(first_child(moov, tag_meta()) == Some(mbody));
    assert(meta_children(mbody) =~= ilst);
    assert(ilst + empty =~= ilst);
    law_front_box_is_found(tag_ilst(), item, empty);
    assert(item + empty =~= item);
    law_front_box_is_found(atom, data, empty);
    assert(data + empty =~= data);
    law_front_box_is_found(tag_data(), prefix + t, empty);
    assert(ilst_data(ilst, atom) == Some(prefix + t));
    assert((prefix + t).subrange(8, (prefix + t).len() as int) =~= t);
}

/// Extract a UTF-8 text value for `atom_name` from a `moov` body, trying
/// the iTunes, 3GPP and wrapper-less iTunes locations in that order.
pub fn read_itunes_text(moov: &[u8], atom_name: &[u8; 4]) -> (r: Option<String>)
    ensures
        r.deep_view() == itunes_text(moov@, atom_name@),
{
    if let Some(udta) = find_child_box(moov, &fourcc::udta()) {
        if let Some(s) = read_ilst_atom(udta, atom_name) {
            return Some(s);
        }
        if let Some(atom) = find_child_box(udta, atom_name) {
            if let Some(s) = parse_3gpp_text(atom) {
                return Some(s);
            }
        }
    }
    if let Some(meta) = find_child_box(moov, &fourcc::meta()) {
        if let Some(s) = read_ilst_text(meta_body(meta), atom_name) {
            return Some(s);
        }
    }
    None
}

/// The embedded cover art of a `moov` body, looked up in two places in order:
///   1. moov > udta > meta > ilst > covr > data  (iTunes/Apple)
///   2. moov > meta > ilst > covr > data          (no udta wrapper)
pub open spec fn covr_bytes(moov: Seq<u8>) -> Option<Seq<u8>> {
    let p1 = match first_child(moov, tag_udta()) {
        None => None,
        Some(u) => match first_child(u, tag_meta()) {
            None => None,
            Some(m) => ilst_bytes(meta_children(m), tag_covr()),
        },
    };
    if p1 is Some {
        p1
    } else {
        match first_child(moov, tag_meta()) {
            None => None,
            Some(m) => ilst_bytes(meta_children(m), tag_covr()),
        }
    }
}

/// Extract the embedded cover-art JPEG/PNG from the `covr` iTunes atom of a
/// `moov` body.
pub fn covr_thumbnail(moov: &[u8]) -> (r: Option<Vec<u8>>)
    ensures
        r.deep_view() == covr_bytes(moov@),
{
    if let Some(udta) = find_child_box(moov, &fourcc::udta()) {
        if let Some(meta) = find_child_box(udta, &fourcc::meta()) {
            if let Some(bytes) = read_ilst_bytes(meta_body(meta), &fourcc::covr()) {
                return Some(bytes);
            }
        }
    }
    if let Some(meta) = find_child_box(moov, &fourcc::meta()) {
        if let Some(bytes) = read_ilst_bytes(meta_body(meta), &fourcc::covr()) {
            return Some(bytes);
        }
    }
    None
}

/// Whether a `trak` body is a video track: its `mdia > hdlr` handler type
/// (bytes 8..12 of the `hdlr` body) is `vide`.
pub open spec fn is_video_trak(trak: Seq<u8>) -> bool {
    match first_child(trak, tag_mdia()) {
        None => false,
        Some(mdia) => match first_child(mdia, tag_hdlr()) {
            None => false,
            Some(h) => h.len() >= 12 && has_tag_at(h, 8, tag_vide()),
        },
    }
}

/// The `tkhd` dimensions of the first video track among `traks[i..]`; `None`
/// when there is none, or when that track has no `tkhd` or a short one.
pub open spec fn first_video_dims(traks: Seq<Seq<u8>>, i: int) -> Option<(u32, u32)>
    decreases traks.len() - i,
{
    if i < 0 || i >= traks.len() {
        None
    } else if is_video_trak(traks[i]) {
        match first_child(traks[i], tag_tkhd()) {
            None => None,
            Some(t) => tkhd_dims(t),
        }
    } else {
        first_video_dims(traks, i + 1)
    }
}

/// (width, height, duration_ms, creation_time, modification_time).
pub type FallbackFields = (Option<u32>, Option<u32>, Option<u64>, Option<i64>, Option<i64>);

/// The movie fields recovered from a `moov` body by walking its boxes: timing
/// from `mvhd` (which must be there and well formed) and the dimensions of
/// the first video `trak`.
pub open spec fn moov_fallback_fields(moov: Seq<u8>) -> Option<FallbackFields> {
    match first_child(moov, tag_mvhd()) {
        None => None,
        Some(m) => match mvhd_fields(m) {
            None => None,
            Some((creation, modification, duration)) => {
                let dims = first_video_dims(all_children(moov, tag_trak()), 0);
                Some(
                    (
                        match dims {
                            Some(d) => Some(d.0),
                            None => None,
                        },
                        match dims {
                            Some(d) => Some(d.1),
                            None => None,
                        },
                        duration,
                        creation,
                        modification,
                    ),
                )
            },
        },
    }
}

fn is_video_track(trak: &[u8]) -> (r: bool)
    ensures
        r == is_video_trak(trak@),
{
    match find_child_box(trak, &fourcc::mdia()) {
        None => false,
        Some(mdia) => match find_child_box(mdia, &fourcc::hdlr()) {
            None => false,
            Some(hdlr) => hdlr.len() >= 12 && tag_at(hdlr, 8, &fourcc::vide()),
        },
    }
}

/// Walk a `moov` body for what the container library could not parse:
/// movie-level timing from `mvhd` and the video track's pixel dimensions
/// from its `tkhd`, without touching audio.
pub fn read_moov_fallback(moov: &[u8]) -> (r: Option<FallbackFields>)
    ensures
        r == moov_fallback_fields(moov@),
{
    let mvhd = match find_child_box(moov, &fourcc::mvhd()) {
        Some(b) => b,
        None => return None,
    };
    let (creation_time, modification_time, duration_ms) = match parse_mvhd(mvhd) {
        Some(f) => f,
        None => return None,
    };
    let traks = find_all_child_boxes(moov, &fourcc::trak());
    let dims = first_video_track_dims(&traks);
    let (width, height) = match dims {
        Some(d) => (Some(d.0), Some(d.1)),
        None => (None, None),
    };
    Some((width, height, duration_ms, creation_time, modification_time))
}

fn first_video_track_dims(traks: &Vec<&[u8]>) -> (r: Option<(u32, u32)>)
    ensures
        r == first_video_dims(slices_bytes(traks@), 0),
{
    let ghost all = slices_bytes(traks@);
    let mut i: usize = 0;
    while i < traks.len()
        invariant
            all == slices_bytes(traks@),
            i <= traks@.len(),
            first_video_dims(all, 0) == first_video_dims(all, i as int),
        decreases traks@.len() - i,
    {
        let trak = traks[i];
        assert(all[i as int] == trak@);
        if is_video_track(trak) {
            return match find_child_box(trak, &fourcc::tkhd()) {
                Some(tkhd) => parse_tkhd_dimensions(tkhd),
                None => None,
            };
        }
        i += 1;
    }
    None
}

/// `end` with the trailing `/` bytes of `b[..end]` dropped.
pub open spec fn strip_slashes(b: Seq<u8>, end: int) -> int
    decreases end,
{
    if end > 0 && b[end - 1] == 0x2f {
        strip_slashes(b, end - 1)
    } else {
        end
    }
}

/// The index of the first `+` or `-` byte in `b[i..end]`.
pub open spec fn first_sign(b: Seq<u8>, i: int, end: int) -> Option<int>
    decreases end - i,
{
    if i >= end {
        None
    } else if b[i] == 0x2b || b[i] == 0x2d {
        Some(i)
    } else {
        first_sign(b, i + 1, end)
    }
}

/// The latitude, longitude and optional altitude texts of the bytes `b` of
/// an ISO 6709 string `+LAT+LON/` or `+LAT+LON+ALT/`: trailing `/` are
/// dropped; longitude starts at the first sign after the first byte and
/// altitude at the next sign after that.
pub open spec fn iso6709_split(b: Seq<u8>) -> Option<(Seq<u8>, Seq<u8>, Option<Seq<u8>>)> {
    let end = strip_slashes(b, b.len() as int);
    if end == 0 {
        None
    } else {
        match first_sign(b, 1, end) {
            None => None,
            Some(lon) => match first_sign(b, lon + 1, end) {
                Some(alt) => Some((b.subrange(0, lon), b.subrange(lon, alt), Some(b.subrange(alt, end)))),
                None => Some((b.subrange(0, lon), b.subrange(lon, end), None)),
            },
        }
    }
}

/// A signed decimal text of ISO 6709: a `+` or `-`, then digits and `.`.
pub open spec fn is_signed_decimal(t: Seq<u8>) -> bool {
    &&& t.len() >= 1
    &&& (t[0] == 0x2b || t[0] == 0x2d)
    &&& forall|i: int| 1 <= i < t.len() ==> (0x30 <= #[trigger] t[i] <= 0x39 || t[i] == 0x2e)
}

proof fn lemma_first_sign_skips(b: Seq<u8>, i: int, j: int, end: int)
    requires
        i <= j <= end,
        forall|k: int| i <= k < j ==> !(b[k] == 0x2b || b[k] == 0x2d),
    ensures
        first_sign(b, i, end) == first_sign(b, j, end),
    decreases j - i,
{
    if i < j {
        lemma_first_sign_skips(b, i + 1, j, end);
    }
}

/// Splitting a location made of a latitude, a longitude and an optional
/// altitude, each a signed decimal, and a closing `/` gives back those
/// texts, whatever their signs.
pub proof fn law_iso6709_split_gives_back_the_parts(lat: Seq<u8>, lon: Seq<u8>, alt: Seq<u8>)
    requires
        is_signed_decimal(lat),
        is_signed_decimal(lon),
        is_signed_decimal(alt),
    ensures
        iso6709_split(lat + lon + seq![0x2fu8]) == Some((lat, lon, None::<Seq<u8>>)),
        iso6709_split(lat + lon + alt + seq![0x2fu8]) == Some((lat, lon, Some(alt))),
{
    let n = lat.len() as int;
    let m = lon.len() as int;
    // Without altitude.
    let b = lat + lon + seq![0x2fu8];
    let end = n + m;
    assert(b[end] == 0x2f);
    assert(b[end - 1] == lon[m - 1]);
    assert(b[end - 1] != 0x2f);
    assert(strip_slashes(b, end) == end);
    assert(strip_slashes(b, b.len() as int) == end);
    assert forall|k: int| 1 <= k < n implies !(b[k] == 0x2b || b[k] == 0x2d) by {
        assert(b[k] == lat[k]);
    }
    lemma_first_sign_skips(b, 1, n, end);
    assert(b[n] == lon[0]);
    assert(first_sign(b, 1, end) == Some(n));
    assert forall|k: int| n + 1 <= k < end implies !(b[k] == 0x2b || b[k] == 0x2d) by {
        assert(b[k] == lon[k - n]);
    }
    lemma_first_sign_skips(b, n + 1, end, end);
    assert(b.subrange(0, n) =~= lat);
    assert(b.subrange(n, end) =~= lon);
    // With altitude.
    let c = lat + lon + alt + seq![0x2fu8];
    let p = alt.len() as int;
    let end2 = n + m + p;
    assert(c[end2] == 0x2f);
    assert(c[end2 - 1] == alt[p - 1]);
    assert(c[end2 - 1] != 0x2f);
    assert(strip_slashes(c, end2) == end2);
    assert(strip_slashes(c, c.len() as int) == end2);
    assert forall|k: int| 1 <= k < n implies !(c[k] == 0x2b || c[k] == 0x2d) by {
        assert(c[k] == lat[k]);
    }
    lemma_first_sign_skips(c, 1, n, end2);
    assert(c[n] == lon[0]);
    assert(first_sign(c, 1, end2) == Some(n));
    assert forall|k: int| n + 1 <= k < n + m implies !(c[k] == 0x2b || c[k] == 0x2d) by {
        assert(c[k] == lon[k - n]);
    }
    lemma_first_sign_skips(c, n + 1, n + m, end2);
    assert(c[n + m] == alt[0]);
    assert(first_sign(c, n + 1, end2) == Some(n + m));
    assert(c.subrange(0, n) =~= lat);
    assert(c.subrange(n, n + m) =~= lon);
    assert(c.subrange(n + m, end2) =~= alt);
}

/// The coordinate texts of an ISO 6709 location, each the UTF-8 bytes of a
/// signed decimal number.
pub struct Iso6709Fields {
    pub latitude: Vec<u8>,
    pub longitude: Vec<u8>,
    pub altitude: Option<Vec<u8>>,
}

/// The (latitude, longitude, altitude) bytes that the fields hold.
pub open spec fn iso_view(o: Option<Iso6709Fields>) -> Option<(Seq<u8>, Seq<u8>, Option<Seq<u8>>)> {
    match o {
        None => None,
        Some(f) => Some((f.latitude@, f.longitude@, f.altitude.deep_view())),
    }
}

fn first_sign_index(b: &[u8], start: usize, end: usize) -> (r: Option<usize>)
    requires
        start <= end <= b@.len(),
    ensures
        r matches Some(i) ==> start <= i < end,
        match r {
            Some(i) => first_sign(b@, start as int, end as int) == Some(i as int),
            None => first_sign(b@, start as int, end as int) is None,
        },
{
    let mut i = start;
    while i < end
        invariant
            start <= i <= end <= b@.len(),
            first_sign(b@, start as int, end as int) == first_sign(b@, i as int, end as int),
        decreases end - i,
    {
        if b[i] == 0x2b || b[i] == 0x2d {
            return Some(i);
        }
        i += 1;
    }
    None
}

/// Split an ISO 6709 coordinate string of the form `+LAT+LON/` or
/// `+LAT+LON+ALT/` (after trimming white space) into its number texts.
pub fn iso6709_fields(s: &str) -> (r: Option<Iso6709Fields>)
    ensures
        iso_view(r) == iso6709_split(encode_utf8(trim_chars(s@))),
{
    let t = trim_str(s);
    let b = t.as_bytes();
    let mut end = b.len();
    while end > 0 && b[end - 1] == 0x2f
        invariant
            end <= b@.len(),
            strip_slashes(b@, b@.len() as int) == strip_slashes(b@, end as int),
        decreases end,
    {
        end -= 1;
    }
    if end == 0 {
        return None;
    }
    let lon_pos = match first_sign_index(b, 1, end) {
        Some(p) => p,
        None => return None,
    };
    let lat = vstd::slice::slice_to_vec(vstd::slice::slice_subrange(b, 0, lon_pos));
    match first_sign_index(b, lon_pos + 1, end) {
        Some(alt_pos) => Some(
            Iso6709Fields {
                latitude: lat,
                longitude: vstd::slice::slice_to_vec(vstd::slice::slice_subrange(b, lon_pos, alt_pos)),
                altitude: Some(vstd::slice::slice_to_vec(vstd::slice::slice_subrange(b, alt_pos, end))),
            },
        ),
        None => Some(
            Iso6709Fields {
                latitude: lat,
                longitude: vstd::slice::slice_to_vec(vstd::slice::slice_subrange(b, lon_pos, end)),
                altitude: None,
            },
        ),
    }
}

/// A track of a parsed MP4 header: whether its handler is video, its size,
/// and its media duration in ticks of its timescale (ticks per second).
pub struct TrackInfo {
    pub is_video: bool,
    pub width: u16,
    pub height: u16,
    pub media_duration: u64,
    pub timescale: u32,
}

/// The duration of a track in milliseconds as the `mp4` crate gives it:
/// the media duration times 1 000 000 (wrapping at 64 bits), divided by the
/// timescale, is microseconds; `None` for a zero timescale.
pub open spec fn track_duration_ms(t: TrackInfo) -> Option<u64> {
    if t.timescale == 0 {
        None
    } else {
        Some(
            (vstd::wrapping::u64_specs::wrapping_mul(t.media_duration, 1_000_000) / (
            t.timescale as u64) / 1000) as u64,
        )
    }
}

fn track_duration(t: &TrackInfo) -> (r: Option<u64>)
    ensures
        r == track_duration_ms(*t),
{
    if t.timescale == 0 {
        None
    } else {
        Some(t.media_duration.wrapping_mul(1_000_000) / (t.timescale as u64) / 1000)
    }
}

/// What the reader takes from a parsed MP4 header: its tracks, in the order
/// the container library hands them out, and the movie header times.
pub struct MovieHeader {
    pub tracks: Vec<TrackInfo>,
    pub creation_time: u64,
    pub modification_time: u64,
}

/// The first video track of `tracks[i..]`.
pub open spec fn first_video_track(tracks: Seq<TrackInfo>, i: int) -> Option<TrackInfo>
    decreases tracks.len() - i,
{
    if i < 0 || i >= tracks.len() {
        None
    } else if tracks[i].is_video {
        Some(tracks[i])
    } else {
        first_video_track(tracks, i + 1)
    }
}

/// (width, height, duration_ms, creation, modification) from a parsed header:
/// the size and duration of its first video track, and the movie header times.
pub open spec fn header_fields(h: MovieHeader) -> FallbackFields {
    movie_fields(h.tracks@, h.creation_time, h.modification_time)
}

/// (width, height, duration_ms, creation, modification) from the tracks of
/// a header, in the order they are walked, and its movie header times.
pub open spec fn movie_fields(tracks: Seq<TrackInfo>, creation: u64, modification: u64) -> FallbackFields {
    match first_video_track(tracks, 0) {
        Some(t) => (
            Some(t.width as u32),
            Some(t.height as u32),
            track_duration_ms(t),
            mp4_time_ms(creation),
            mp4_time_ms(modification),
        ),
        None => (None, None, None, mp4_time_ms(creation), mp4_time_ms(modification)),
    }
}

/// The text of an atom in an optional `moov` body.
pub open spec fn moov_text(moov: Option<Seq<u8>>, atom: Seq<u8>) -> Option<Seq<char>> {
    match moov {
        Some(m) => itunes_text(m, atom),
        None => None,
    }
}

/// The ISO 6709 coordinate texts of the `\xa9xyz` atom of an optional `moov` body.
pub open spec fn moov_location(moov: Option<Seq<u8>>) -> Option<(Seq<u8>, Seq<u8>, Option<Seq<u8>>)> {
    match moov_text(moov, tag_atom_xyz()) {
        Some(t) => iso6709_split(encode_utf8(trim_chars(t))),
        None => None,
    }
}

/// What `video_meta` yields from the movie fields `f` and the `moov` body.
pub open spec fn video_info_matches(
    m: MediaInfo,
    mime: MimeType,
    f: FallbackFields,
    moov: Option<Seq<u8>>,
) -> bool {
    &&& m.mime_type == mime
    &&& m.width == f.0
    &&& m.height == f.1
    &&& m.duration_ms == f.2
    &&& m.captured_at_ms == f.3
    &&& m.modified_at_ms == f.4
    &&& m.camera_make.deep_view() == moov_text(moov, tag_atom_mak())
    &&& m.camera_model.deep_view() == moov_text(moov, tag_atom_mod())
    &&& m.location matches Location::Iso6709(loc) && iso_view(loc) == moov_location(moov)
}

fn first_video(tracks: &Vec<TrackInfo>) -> (r: Option<&TrackInfo>)
    ensures
        match r {
            Some(t) => first_video_track(tracks@, 0) == Some(*t),
            None => first_video_track(tracks@, 0) is None,
        },
{
    let mut i: usize = 0;
    while i < tracks.len()
        invariant
            i <= tracks@.len(),
            first_video_track(tracks@, 0) == first_video_track(tracks@, i as int),
        decreases tracks@.len() - i,
    {
        if tracks[i].is_video {
            return Some(&tracks[i]);
        }
        i += 1;
    }
    None
}

fn opt_moov_text(moov: Option<&[u8]>, atom_name: &[u8; 4]) -> (r: Option<String>)
    ensures
        r.deep_view() == moov_text(opt_bytes(moov), atom_name@),
{
    match moov {
        Some(m) => read_itunes_text(m, atom_name),
        None => None,
    }
}

/// The metadata of an MP4 / QuickTime file from the outcome of parsing its
/// header and from its `moov` body (when the file has one). When the header
/// could not be parsed, the movie fields come from walking `moov` instead;
/// when that fails too, the header's error is returned unchanged.
pub fn video_meta<E>(mime: MimeType, header: Result<MovieHeader, E>, moov: Option<&[u8]>) -> (r:
    Result<MediaInfo, E>)
    ensures
        match header {
            Ok(h) => r matches Ok(m) && video_info_matches(m, mime, header_fields(h), opt_bytes(moov)),
            Err(e) => match opt_bytes(moov) {
                Some(mb) => match moov_fallback_fields(mb) {
                    Some(f) => r matches Ok(m) && video_info_matches(m, mime, f, opt_bytes(moov)),
                    None => r == Err::<MediaInfo, E>(e),
                },
                None => r == Err::<MediaInfo, E>(e),
            },
        },
{
    let fields: FallbackFields = match header {
        Ok(h) => {
            let creation = mp4_timestamp(h.creation_time);
            let modification = mp4_timestamp(h.modification_time);
            match first_video(&h.tracks) {
                Some(t) => (
                    Some(t.width as u32),
                    Some(t.height as u32),
                    track_duration(t),
                    creation,
                    modification,
                ),
                None => (None, None, None, creation, modification),
            }
        },
        Err(e) => {
            let fallback = match moov {
                Some(m) => read_moov_fallback(m),
                None => None,
            };
            match fallback {
                Some(f) => f,
                None => return Err(e),
            }
        },
    };
    let location = match opt_moov_text(moov, &fourcc::atom_xyz()) {
        Some(text) => iso6709_fields(text.as_str()),
        None => None,
    };
    Ok(
        MediaInfo {
            mime_type: mime,
            width: fields.0,
            height: fields.1,
            captured_at_ms: fields.3,
            modified_at_ms: fields.4,
            camera_make: opt_moov_text(moov, &fourcc::atom_mak()),
            camera_model: opt_moov_text(moov, &fourcc::atom_mod()),
            location: Location::Iso6709(location),
            duration_ms: fields.2,
        },
    )
}

/// Cover art, when there is any, is never empty.
pub proof fn law_cover_art_is_nonempty(moov: Seq<u8>)
    ensures
        covr_bytes(moov) matches Some(b) ==> b.len() > 0,
{
}

#[verifier::external_type_specification]
#[verifier::external_body]
pub struct ExMp4Error(mp4::Error);

/// What `mp4::Mp4Reader::read_header` parses from the bytes of a file: the
/// tracks (handler kind, size, media duration and timescale of each) and
/// the movie header's creation and modification times, or `None` where it
/// returns an error.
pub uninterp spec fn mp4_header(file: Seq<u8>) -> Option<(Multiset<TrackInfo>, u64, u64)>;

/// Calls `mp4::Mp4Reader::read_header` on the bytes of a file (through an
/// in-memory cursor, with the file's length as its size) and takes from each
/// track what `TrackInfo` holds, and the movie header times: the named result
/// `mp4_header` of the bytes. The `mp4` crate keeps the tracks in a
/// `HashMap`, walked in an order that may differ from run to run, so which
/// tracks come out is stated and their order is not. Only files whose boxes
/// are `movie_boxes_sound` are admitted: on a child box of size 0 the crate's
/// walk reads the same header again without end.
#[verifier::external_body]
fn read_movie_header(file: &[u8]) -> (r: Result<MovieHeader, mp4::Error>)
    requires
        movie_boxes_sound(file@, 0),
    ensures
        match mp4_header(file@) {
            Some((tracks, creation, modification)) => r matches Ok(h) && h.tracks@.to_multiset()
                == tracks && h.creation_time == creation && h.modification_time == modification,
            None => r is Err,
        },
{
    let mp4 = mp4::Mp4Reader::read_header(std::io::Cursor::new(file), file.len() as u64)?;
    let tracks = mp4.tracks().values().map(|t| TrackInfo {
        is_video: matches!(t.track_type(), Ok(mp4::TrackType::Video)),
        width: t.width(),
        height: t.height(),
        media_duration: t.trak.mdia.mdhd.duration,
        timescale: t.trak.mdia.mdhd.timescale,
    }).collect();
    let mvhd = &mp4.moov.mvhd;
    Ok(MovieHeader { tracks, creation_time: mvhd.creation_time, modification_time: mvhd.modification_time })
}

/// Why the header of a movie file gave no metadata.
#[derive(Debug)]
pub enum MovieError {
    /// The `mp4` crate refused the header.
    Header(mp4::Error),
    /// A box that the header parse walks is shorter than its 8-byte header
    /// or does not fit where it stands, so the file is not handed to it.
    UnsoundBoxes,
}

/// What the header parse gives for a file: `mp4_header` for files whose
/// boxes are sound, nothing for the others.
pub open spec fn parsed_header(file: Seq<u8>) -> Option<(Multiset<TrackInfo>, u64, u64)> {
    if movie_boxes_sound(file, 0) {
        mp4_header(file)
    } else {
        None
    }
}

/// The metadata of an MP4 / QuickTime file from its bytes: its header as
/// the `mp4` crate parses it (for files whose boxes are sound), and the body
/// of its top-level `moov` box. With several video tracks, which one is
/// first depends on the order in which the `mp4` crate walks them, so the
/// result is stated for some order of the tracks.
pub fn read_video(mime: MimeType, file: &[u8]) -> (r: Result<MediaInfo, MovieError>)
    ensures
        match parsed_header(file@) {
            Some((tracks, creation, modification)) => r matches Ok(m) && exists|s: Seq<TrackInfo>|
                #[trigger] s.to_multiset() == tracks && video_info_matches(
                    m,
                    mime,
                    movie_fields(s, creation, modification),
                    file_scan(file@, tag_moov(), 0),
                ),
            None => match file_scan(file@, tag_moov(), 0) {
                Some(mb) => match moov_fallback_fields(mb) {
                    Some(f) => r matches Ok(m) && video_info_matches(m, mime, f, Some(mb)),
                    None => r is Err,
                },
                None => r is Err,
            },
        },
        r matches Err(e) ==> (e is UnsoundBoxes <==> !movie_boxes_sound(file@, 0)),
{
    let header = if movie_boxes_check(file) {
        match read_movie_header(file) {
            Ok(h) => Ok(h),
            Err(e) => Err(MovieError::Header(e)),
        }
    } else {
        Err(MovieError::UnsoundBoxes)
    };
    let ghost parsed = header;
    let moov = find_top_level_box(file, &fourcc::moov());
    let r = video_meta(mime, header, moov);
    proof {
        if let Ok(h) = parsed {
            assert(h.tracks@.to_multiset() == h.tracks@.to_multiset());
        }
    }
    r
}

proof fn lemma_first_video_track(s: Seq<TrackInfo>, i: int)
    requires
        0 <= i,
    ensures
        match first_video_track(s, i) {
            Some(t) => t.is_video && s.contains(t),
            None => forall|j: int| i <= j < s.len() ==> !(#[trigger] s[j]).is_video,
        },
    decreases s.len() - i,
{
    if i < s.len() {
        if s[i].is_video {
            assert(s.contains(s[i]));
        } else {
            lemma_first_video_track(s, i + 1);
        }
    }
}

/// Tracks that hold one video track (or several equal ones) give the same
/// size, duration and times in whatever order they are walked.
pub proof fn law_one_video_track_makes_order_irrelevant(
    s1: Seq<TrackInfo>,
    s2: Seq<TrackInfo>,
    creation: u64,
    modification: u64,
)
    requires
        s1.to_multiset() == s2.to_multiset(),
        forall|a: TrackInfo, b: TrackInfo|
            #![trigger s1.contains(a), s1.contains(b)]
            s1.contains(a) && s1.contains(b) && a.is_video && b.is_video ==> a == b,
    ensures
        movie_fields(s1, creation, modification) == movie_fields(s2, creation, modification),
{
    broadcast use vstd::seq_lib::group_to_multiset_ensures;

    lemma_first_video_track(s1, 0);
    lemma_first_video_track(s2, 0);
    match first_video_track(s1, 0) {
        Some(t1) => {
            assert(s1.to_multiset().count(t1) > 0);
            assert(s2.contains(t1));
            let j = choose|j: int| 0 <= j < s2.len() && s2[j] == t1;
            match first_video_track(s2, 0) {
                Some(t2) => {
                    assert(s2.to_multiset().count(t2) > 0);
                    assert(s1.contains(t2));
                },
                None => {
                    assert(!s2[j].is_video);
                },
            }
        },
        None => {
            match first_video_track(s2, 0) {
                Some(t2) => {
                    assert(s2.to_multiset().count(t2) > 0);
                    assert(s1.contains(t2));
                    let j = choose|j: int| 0 <= j < s1.len() && s1[j] == t2;
                    assert(!s1[j].is_video);
                },
                None => {},
            }
        },
    }
}

} // verus!
