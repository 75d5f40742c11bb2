//! Which MP4 / QuickTime files the `mp4` crate's header parse can be handed:
//! those in which every box sequence that it walks child by child is made
//! of boxes of at least 8 bytes that tile their parent exactly. A child box
//! of size 0 sends that walk back to the same header again and again.
use vstd::prelude::*;
use crate::bytes::{be_u32, be_u64, has_tag_at, spec_be_u32, spec_be_u64, tag_at};
use crate::fourcc;
use crate::fourcc::{
    tag_data, tag_dinf, tag_dref, tag_emsg, tag_hdlr, tag_ilst, tag_mdia, tag_meta, tag_minf,
    tag_moof, tag_moov, tag_mvex, tag_stbl, tag_traf, tag_trak, tag_udta,
};

verus! {

/// The boxes whose bodies the header parse walks as a sequence of child
/// boxes; `Leaf` for every other box.
#[derive(Clone, Copy, Debug, PartialEq, Eq, Structural)]
pub enum BoxKind {
    Moov,
    Trak,
    Mdia,
    Minf,
    Dinf,
    Dref,
    Stbl,
    Udta,
    Meta,
    Ilst,
    Item,
    Mvex,
    Moof,
    Traf,
    Leaf,
}

/// The kind of a child box of type `typ` inside a box of kind `parent`.
pub open spec fn child_kind(parent: BoxKind, typ: Seq<u8>) -> BoxKind {
    match parent {
        BoxKind::Moov => if typ == tag_trak() {
            BoxKind::Trak
        } else if typ == tag_mvex() {
            BoxKind::Mvex
        } else if typ == tag_udta() {
            BoxKind::Udta
        } else if typ == tag_meta() {
            BoxKind::Meta
        } else {
            BoxKind::Leaf
        },
        BoxKind::Trak => if typ == tag_mdia() {
            BoxKind::Mdia
        } else if typ == tag_meta() {
            BoxKind::Meta
        } else {
            BoxKind::Leaf
        },
        BoxKind::Mdia => if typ == tag_minf() {
            BoxKind::Minf
        } else {
            BoxKind::Leaf
        },
        BoxKind::Minf => if typ == tag_dinf() {
            BoxKind::Dinf
        } else if typ == tag_stbl() {
            BoxKind::Stbl
        } else {
            BoxKind::Leaf
        },
        BoxKind::Dinf => if typ == tag_dref() {
            BoxKind::Dref
        } else {
            BoxKind::Leaf
        },
        BoxKind::Udta => if typ == tag_meta() {
            BoxKind::Meta
        } else {
            BoxKind::Leaf
        },
        BoxKind::Meta => if typ == tag_ilst() {
            BoxKind::Ilst
        } else {
            BoxKind::Leaf
        },
        BoxKind::Ilst => BoxKind::Item,
        BoxKind::Moof => if typ == tag_traf() {
            BoxKind::Traf
        } else {
            BoxKind::Leaf
        },
        _ => BoxKind::Leaf,
    }
}

/// Where the child boxes start in the body of a box of this kind: after the
/// version, flags and entry count of `dref`; after the version and flags of
/// `meta`, or at once where its body starts with an `hdlr` box; at once for
/// the others. `None` where the body has neither layout.
pub open spec fn box_content_start(kind: BoxKind, body: Seq<u8>) -> Option<int> {
    match kind {
        BoxKind::Dref => if body.len() >= 8 {
            Some(8)
        } else {
            None
        },
        BoxKind::Meta => if body.len() >= 8 && spec_be_u32(body, 0) == 0 {
            Some(4)
        } else if body.len() >= 8 && has_tag_at(body, 4, tag_hdlr()) {
            Some(0)
        } else {
            None
        },
        _ => Some(0),
    }
}

/// The boxes of `data[pos..]`, children of a box of kind `kind`, tile it
/// exactly, each at least 8 bytes long (a `data` box of an `ilst` item at
/// least 16), and the children of each that the parse walks do too.
pub open spec fn child_boxes_sound(data: Seq<u8>, pos: int, kind: BoxKind) -> bool
    decreases data.len(), data.len() - pos,
{
    if pos < 0 || pos > data.len() {
        false
    } else if pos == data.len() {
        true
    } else if data.len() - pos < 8 {
        false
    } else {
        let size = spec_be_u32(data, pos);
        let typ = data.subrange(pos + 4, pos + 8);
        if size < 8 || size > data.len() - pos {
            false
        } else if kind == BoxKind::Item && typ == tag_data() && size < 16 {
            false
        } else {
            let body = data.subrange(pos + 8, pos + size);
            let child = child_kind(kind, typ);
            let inner_sound = if child == BoxKind::Leaf {
                true
            } else {
                match box_content_start(child, body) {
                    Some(off) => child_boxes_sound(body.subrange(off, body.len() as int), 0, child),
                    None => false,
                }
            };
            inner_sound && child_boxes_sound(data, pos + size, kind)
        }
    }
}

/// The top-level boxes of `file` from `pos`, walked as the header parse
/// walks them (it stops at a size of 0, at a 64-bit size below 16 and past
/// the end of the file), hold no `emsg` box and no `moov` or `moof` box
/// with a 64-bit size, and each `moov` and `moof` box of at least 8 bytes
/// lies inside the file with sound children.
pub open spec fn movie_boxes_sound(file: Seq<u8>, pos: int) -> bool
    decreases file.len() - pos,
{
    if pos < 0 || pos + 8 > file.len() {
        true
    } else {
        let size = spec_be_u32(file, pos);
        let is_moov = has_tag_at(file, pos + 4, tag_moov());
        let is_moof = has_tag_at(file, pos + 4, tag_moof());
        if size == 0 {
            true
        } else if size == 1 {
            if pos + 16 > file.len() {
                true
            } else {
                let large = spec_be_u64(file, pos + 8);
                if large < 16 {
                    true
                } else if is_moov || is_moof || has_tag_at(file, pos + 4, tag_emsg()) {
                    false
                } else if large > file.len() - pos {
                    true
                } else {
                    movie_boxes_sound(file, pos + large)
                }
            }
        } else if has_tag_at(file, pos + 4, tag_emsg()) {
            false
        } else if (is_moov || is_moof) && size >= 8 {
            if size > file.len() - pos {
                false
            } else {
                child_boxes_sound(
                    file.subrange(pos + 8, pos + size),
                    0,
                    if is_moov {
                        BoxKind::Moov
                    } else {
                        BoxKind::Moof
                    },
                ) && movie_boxes_sound(file, pos + size)
            }
        } else if size > file.len() - pos {
            true
        } else {
            movie_boxes_sound(file, pos + size)
        }
    }
}

fn child_kind_of(parent: BoxKind, data: &[u8], pos: usize) -> (k: BoxKind)
    requires
        pos + 8 <= data@.len(),
    ensures
        k == child_kind(parent, data@.subrange(pos + 4, pos + 8)),
{
    let len = data.len();
    assert(pos + 8 <= len);
    let at = pos + 4;
    match parent {
        BoxKind::Moov => if tag_at(data, at, &fourcc::trak()) {
            BoxKind::Trak
        } else if tag_at(data, at, &fourcc::mvex()) {
            BoxKind::Mvex
        } else if tag_at(data, at, &fourcc::udta()) {
            BoxKind::Udta
        } else if tag_at(data, at, &fourcc::meta()) {
            BoxKind::Meta
        } else {
            BoxKind::Leaf
        },
        BoxKind::Trak => if tag_at(data, at, &fourcc::mdia()) {
            BoxKind::Mdia
        } else if tag_at(data, at, &fourcc::meta()) {
            BoxKind::Meta
        } else {
            BoxKind::Leaf
        },
        BoxKind::Mdia => if tag_at(data, at, &fourcc::minf()) {
            BoxKind::Minf
        } else {
            BoxKind::Leaf
        },
        BoxKind::Minf => if tag_at(data, at, &fourcc::dinf()) {
            BoxKind::Dinf
        } else if tag_at(data, at, &fourcc::stbl()) {
            BoxKind::Stbl
        } else {
            BoxKind::Leaf
        },
        BoxKind::Dinf => if tag_at(data, at, &fourcc::dref()) {
            BoxKind::Dref
        } else {
            BoxKind::Leaf
        },
        BoxKind::Udta => if tag_at(data, at, &fourcc::meta()) {
            BoxKind::Meta
        } else {
            BoxKind::Leaf
        },
        BoxKind::Meta => if tag_at(data, at, &fourcc::ilst()) {
            BoxKind::Ilst
        } else {
            BoxKind::Leaf
        },
        BoxKind::Ilst => BoxKind::Item,
        BoxKind::Moof => if tag_at(data, at, &fourcc::traf()) {
            BoxKind::Traf
        } else {
            BoxKind::Leaf
        },
        _ => BoxKind::Leaf,
    }
}

fn content_start(kind: BoxKind, body: &[u8]) -> (r: Option<usize>)
    ensures
        match r {
            Some(o) => box_content_start(kind, body@) == Some(o as int) && o <= body@.len(),
            None => box_content_start(kind, body@) is None,
        },
{
    match kind {
        BoxKind::Dref => if body.len() >= 8 {
            Some(8)
        } else {
            None
        },
        BoxKind::Meta => if body.len() >= 8 && be_u32(body, 0) == 0 {
            Some(4)
        } else if body.len() >= 8 && tag_at(body, 4, &fourcc::hdlr()) {
            Some(0)
        } else {
            None
        },
        _ => Some(0),
    }
}

/// Check the child boxes of a box of kind `kind`, whose children take up
/// all of `data`.
pub fn child_boxes_check(data: &[u8], kind: BoxKind) -> (r: bool)
    ensures
        r == child_boxes_sound(data@, 0, kind),
    decreases data@.len(),
{
    let mut pos: usize = 0;
    while pos < data.len()
        invariant
            pos <= data@.len(),
            child_boxes_sound(data@, 0, kind) == child_boxes_sound(data@, pos as int, kind),
        decreases data@.len() - pos,
    {
        if data.len() - pos < 8 {
            return false;
        }
        let size = be_u32(data, pos);
        assert(data@.subrange(pos + 4, pos + 8) == tag_data() <==> has_tag_at(
            data@,
            pos + 4,
            tag_data(),
        ));
        if size < 8 || size as usize > data.len() - pos {
            return false;
        }
        if kind == BoxKind::Item && tag_at(data, pos + 4, &fourcc::data()) && size < 16 {
            return false;
        }
        let end = pos + size as usize;
        let child = child_kind_of(kind, data, pos);
        if child != BoxKind::Leaf {
            let body = vstd::slice::slice_subrange(data, pos + 8, end);
            let off = match content_start(child, body) {
                Some(o) => o,
                None => {
                    return false;
                },
            };
            let inner = vstd::slice::slice_subrange(body, off, body.len());
            if !child_boxes_check(inner, child) {
                return false;
            }
        }
        pos = end;
    }
    true
}

/// Whether the `mp4` crate's header parse may be handed this file: the
/// check of `movie_boxes_sound` from its start.
pub fn movie_boxes_check(file: &[u8]) -> (r: bool)
    ensures
        r == movie_boxes_sound(file@, 0),
{
    let mut pos: usize = 0;
    while pos < file.len() && file.len() - pos >= 8
        invariant
            pos <= file@.len(),
            movie_boxes_sound(file@, 0) == movie_boxes_sound(file@, pos as int),
        decreases file@.len() - pos,
    {
        let size = be_u32(file, pos);
        let is_moov = tag_at(file, pos + 4, &fourcc::moov());
        let is_moof = tag_at(file, pos + 4, &fourcc::moof());
        let is_emsg = tag_at(file, pos + 4, &fourcc::emsg());
        if size == 0 {
            return true;
        }
        if size == 1 {
            if file.len() - pos < 16 {
                return true;
            }
            let large = be_u64(file, pos + 8);
            if large < 16 {
                return true;
            }
            if is_moov || is_moof || is_emsg {
                return false;
            }
            if large > (file.len() - pos) as u64 {
                return true;
            }
            pos = pos + large as usize;
        } else {
            if is_emsg {
                return false;
            }
            if (is_moov || is_moof) && size >= 8 {
                if size as usize > file.len() - pos {
                    return false;
                }
                let end = pos + size as usize;
                let body = vstd::slice::slice_subrange(file, pos + 8, end);
                let kind = if is_moov {
                    BoxKind::Moov
                } else {
                    BoxKind::Moof
                };
                if !child_boxes_check(body, kind) {
                    return false;
                }
                pos = end;
            } else {
                if size as usize > file.len() - pos {
                    return true;
                }
                pos = pos + size as usize;
            }
        }
    }
    true
}

} // verus!
