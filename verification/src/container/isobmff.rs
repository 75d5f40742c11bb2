//! Box-tree primitives shared by MP4, QuickTime and HEIF: a box is a 4-byte
//! big-endian size, a 4-byte type and a body, which may itself be a sequence
//! of boxes. Nothing here knows what a box means.
use vstd::prelude::*;
use crate::bytes::{be_u32, be_u64, has_tag_at, spec_be_u32, spec_be_u64, tag_at};

verus! {

/// A box starts at offset `i` of `data` and lies wholly inside it: its 8-byte
/// header is there, its declared size is at least the header, and its body
/// ends inside `data`.
pub open spec fn box_fits(data: Seq<u8>, i: int) -> bool {
    &&& 0 <= i
    &&& i + 8 <= data.len()
    &&& spec_be_u32(data, i) >= 8
    &&& i + spec_be_u32(data, i) <= data.len()
}

/// The body of the box at offset `i` (its bytes after the 8-byte header).
pub open spec fn box_body(data: Seq<u8>, i: int) -> Seq<u8> {
    data.subrange(i + 8, i + spec_be_u32(data, i))
}

/// Scanning `data` from offset `i`, box after box, the body of the first box
/// whose type is `name`; the scan stops at the first box that does not fit.
pub open spec fn first_child_from(data: Seq<u8>, name: Seq<u8>, i: int) -> Option<Seq<u8>>
    decreases data.len() - i,
{
    if !box_fits(data, i) {
        None
    } else if has_tag_at(data, i + 4, name) {
        Some(box_body(data, i))
    } else {
        first_child_from(data, name, i + spec_be_u32(data, i))
    }
}

/// The same scan as `first_child_from`, collecting the bodies of all boxes of
/// type `name`, in order.
pub open spec fn children_from(data: Seq<u8>, name: Seq<u8>, i: int) -> Seq<Seq<u8>>
    decreases data.len() - i,
{
    if !box_fits(data, i) {
        Seq::empty()
    } else if has_tag_at(data, i + 4, name) {
        seq![box_body(data, i)] + children_from(data, name, i + spec_be_u32(data, i))
    } else {
        children_from(data, name, i + spec_be_u32(data, i))
    }
}

/// The body of the first child box of type `name` in `data`.
pub open spec fn first_child(data: Seq<u8>, name: Seq<u8>) -> Option<Seq<u8>> {
    first_child_from(data, name, 0)
}

/// The bodies of all child boxes of type `name` in `data`, in order.
pub open spec fn all_children(data: Seq<u8>, name: Seq<u8>) -> Seq<Seq<u8>> {
    children_from(data, name, 0)
}

/// The bytes that an optional slice holds.
pub open spec fn opt_bytes(o: Option<&[u8]>) -> Option<Seq<u8>> {
    match o {
        Some(s) => Some(s@),
        None => None,
    }
}

/// The bytes that each slice of a sequence holds.
pub open spec fn slices_bytes(v: Seq<&[u8]>) -> Seq<Seq<u8>> {
    v.map_values(|s: &[u8]| s@)
}

/// Scan a byte slice for a named child box.
/// Returns the child's content bytes (excluding its 8-byte header).
pub fn find_child_box<'a>(data: &'a [u8], name: &[u8; 4]) -> (r: Option<&'a [u8]>)
    ensures
        opt_bytes(r) == first_child(data@, name@),
{
    let mut i: usize = 0;
    while data.len() - i >= 8
        invariant
            i <= data@.len(),
            first_child_from(data@, name@, i as int) == first_child(data@, name@),
        decreases data@.len() - i,
    {
        let size = be_u32(data, i) as usize;
        if size < 8 || size > data.len() - i {
            return None;
        }
        if tag_at(data, i + 4, name) {
            return Some(vstd::slice::slice_subrange(data, i + 8, i + size));
        }
        i += size;
    }
    None
}

/// Like [`find_child_box`], but collects every matching child instead of only the first.
pub fn find_all_child_boxes<'a>(data: &'a [u8], name: &[u8; 4]) -> (r: Vec<&'a [u8]>)
    ensures
        slices_bytes(r@) == all_children(data@, name@),
{
    let mut out: Vec<&'a [u8]> = Vec::new();
    let mut i: usize = 0;
    while data.len() - i >= 8
        invariant
            i <= data@.len(),
            slices_bytes(out@) + children_from(data@, name@, i as int) == all_children(
                data@,
                name@,
            ),
        ensures
            i <= data@.len(),
            !box_fits(data@, i as int),
            slices_bytes(out@) + children_from(data@, name@, i as int) == all_children(
                data@,
                name@,
            ),
        decreases data@.len() - i,
    {
        let size = be_u32(data, i) as usize;
        if size < 8 || size > data.len() - i {
            break;
        }
        if tag_at(data, i + 4, name) {
            let body = vstd::slice::slice_subrange(data, i + 8, i + size);
            let ghost before = out@;
            out.push(body);
            assert(slices_bytes(out@) =~= slices_bytes(before) + seq![body@]);
            assert(slices_bytes(out@) + children_from(data@, name@, (i + size) as int) =~= 
                slices_bytes(before) + children_from(data@, name@, i as int));
        }
        i += size;
    }
    proof {
        assert(children_from(data@, name@, i as int) =~= Seq::<Seq<u8>>::empty());
        assert(slices_bytes(out@) + Seq::<Seq<u8>>::empty() =~= slices_bytes(out@));
    }
    out
}

proof fn lemma_first_is_head_of_all(data: Seq<u8>, name: Seq<u8>, i: int)
    ensures
        first_child_from(data, name, i) == (if children_from(data, name, i).len() > 0 {
            Some(children_from(data, name, i)[0])
        } else {
            None
        }),
    decreases data.len() - i,
{
    if box_fits(data, i) && !has_tag_at(data, i + 4, name) {
        lemma_first_is_head_of_all(data, name, i + spec_be_u32(data, i));
    }
}

/// The first child box of a given type is the first of all the child boxes of
/// that type, and there is none exactly when there are no such boxes.
pub proof fn law_first_child_is_head_of_all_children(data: Seq<u8>, name: Seq<u8>)
    ensures
        first_child(data, name) == (if all_children(data, name).len() > 0 {
            Some(all_children(data, name)[0])
        } else {
            None
        }),
{
    lemma_first_is_head_of_all(data, name, 0);
}

/// The four big-endian bytes of `v`.
pub open spec fn be32_bytes(v: u32) -> Seq<u8> {
    seq![(v / 0x100_0000) as u8, ((v / 0x1_0000) % 0x100) as u8, ((v / 0x100) % 0x100) as u8, (v % 0x100) as u8]
}

/// A box of type `name` with body `body`: its 32-bit size, type and body.
pub open spec fn box_bytes(name: Seq<u8>, body: Seq<u8>) -> Seq<u8> {
    be32_bytes((body.len() + 8) as u32) + name + body
}

proof fn lemma_be32_roundtrip(v: u32)
    ensures
        spec_be_u32(be32_bytes(v), 0) == v,
{
    let b0: u32 = v / 0x100_0000;
    let b1: u32 = (v / 0x1_0000) % 0x100;
    let b2: u32 = (v / 0x100) % 0x100;
    let b3: u32 = v % 0x100;
    assert(b0 < 0x100 && b1 < 0x100 && b2 < 0x100 && b3 < 0x100 && b0 * 0x100_0000 + b1 * 0x1_0000
        + b2 * 0x100 + b3 == v) by (bit_vector)
        requires
            b0 == v / 0x100_0000,
            b1 == (v / 0x1_0000) % 0x100,
            b2 == (v / 0x100) % 0x100,
            b3 == v % 0x100,
    ;
    assert(be32_bytes(v)[0] == b0);
    assert(be32_bytes(v)[1] == b1);
    assert(be32_bytes(v)[2] == b2);
    assert(be32_bytes(v)[3] == b3);
}

proof fn lemma_scan_shift(a: Seq<u8>, b: Seq<u8>, name: Seq<u8>, j: int)
    requires
        0 <= j,
    ensures
        first_child_from(a + b, name, a.len() + j) == first_child_from(b, name, j),
        children_from(a + b, name, a.len() + j) == children_from(b, name, j),
    decreases b.len() - j,
{
    let ab = a + b;
    let i = a.len() + j;
    if j + 8 <= b.len() {
        assert(spec_be_u32(ab, i) == spec_be_u32(b, j));
        assert(ab.subrange(i + 4, i + 8) =~= b.subrange(j + 4, j + 8));
        if box_fits(b, j) {
            assert(box_body(ab, i) =~= box_body(b, j));
            lemma_scan_shift(a, b, name, j + spec_be_u32(b, j));
        }
    }
}

proof fn lemma_front_box(name: Seq<u8>, body: Seq<u8>, rest: Seq<u8>, other: Seq<u8>)
    requires
        name.len() == 4,
        body.len() + 8 <= u32::MAX,
    ensures
        ({
            let d = box_bytes(name, body) + rest;
            let n = body.len() + 8;
            &&& box_fits(d, 0)
            &&& spec_be_u32(d, 0) == n
            &&& box_body(d, 0) == body
            &&& has_tag_at(d, 4, other) == (name == other)
        }),
{
    let d = box_bytes(name, body) + rest;
    let n = body.len() + 8;
    lemma_be32_roundtrip(n as u32);
    assert(spec_be_u32(d, 0) == spec_be_u32(be32_bytes(n as u32), 0));
    assert(box_body(d, 0) =~= body);
    assert(d.subrange(4, 8) =~= name);
}

/// A box at the front of the data is the first child of its type.
pub proof fn law_front_box_is_found(name: Seq<u8>, body: Seq<u8>, rest: Seq<u8>)
    requires
        name.len() == 4,
        body.len() + 8 <= u32::MAX,
    ensures
        first_child(box_bytes(name, body) + rest, name) == Some(body),
{
    lemma_front_box(name, body, rest, name);
}

/// A box of another type at the front of the data is stepped over: the
/// search goes on in what follows it.
pub proof fn law_other_front_box_is_skipped(other: Seq<u8>, body: Seq<u8>, rest: Seq<u8>, name: Seq<u8>)
    requires
        other.len() == 4,
        other != name,
        body.len() + 8 <= u32::MAX,
    ensures
        first_child(box_bytes(other, body) + rest, name) == first_child(rest, name),
        all_children(box_bytes(other, body) + rest, name) == all_children(rest, name),
{
    let front = box_bytes(other, body);
    lemma_front_box(other, body, rest, name);
    lemma_scan_shift(front, rest, name, 0);
}

/// The children of a type in a box followed by more data: the front box's
/// body, then the children of that type in what follows it.
#[verifier::spinoff_prover]
pub proof fn law_all_children_of_front_box(name: Seq<u8>, body: Seq<u8>, rest: Seq<u8>)
    requires
        name.len() == 4,
        body.len() + 8 <= u32::MAX,
    ensures
        all_children(box_bytes(name, body) + rest, name) == seq![body] + all_children(rest, name),
{
    let front = box_bytes(name, body);
    lemma_front_box(name, body, rest, name);
    lemma_scan_shift(front, rest, name, 0);
}

/// The boxes of `data` from offset `i` follow one another exactly: each
/// fits, and the last ends where `data` ends.
pub open spec fn exact_boxes_from(data: Seq<u8>, i: int) -> bool
    decreases data.len() - i,
{
    if i == data.len() {
        true
    } else if box_fits(data, i) {
        exact_boxes_from(data, i + spec_be_u32(data, i))
    } else {
        false
    }
}

proof fn lemma_children_of_joined(a: Seq<u8>, b: Seq<u8>, name: Seq<u8>, i: int)
    requires
        0 <= i <= a.len(),
        exact_boxes_from(a, i),
    ensures
        children_from(a + b, name, i) == children_from(a, name, i) + children_from(b, name, 0),
    decreases a.len() - i,
{
    let ab = a + b;
    if i == a.len() {
        lemma_scan_shift(a, b, name, 0);
        assert(children_from(a, name, i) =~= Seq::<Seq<u8>>::empty());
        assert(children_from(a, name, i) + children_from(b, name, 0) =~= children_from(b, name, 0));
    } else {
        let size = spec_be_u32(a, i);
        assert(spec_be_u32(ab, i) == size);
        assert(ab.subrange(i + 4, i + 8) =~= a.subrange(i + 4, i + 8));
        assert(box_fits(ab, i));
        assert(box_body(ab, i) =~= box_body(a, i));
        lemma_children_of_joined(a, b, name, i + size);
        let rest_a = children_from(a, name, i + size);
        let rest_b = children_from(b, name, 0);
        if has_tag_at(a, i + 4, name) {
            assert(seq![box_body(a, i)] + (rest_a + rest_b) =~= (seq![box_body(a, i)] + rest_a)
                + rest_b);
        }
    }
}

/// Searching data made of an exact sequence of boxes followed by more bytes
/// finds the children of the boxes first, then those in what follows.
pub proof fn law_all_children_of_joined_data(d1: Seq<u8>, d2: Seq<u8>, name: Seq<u8>)
    requires
        exact_boxes_from(d1, 0),
    ensures
        all_children(d1 + d2, name) == all_children(d1, name) + all_children(d2, name),
{
    lemma_children_of_joined(d1, d2, name, 0);
}

/// What the top-level scan of a file does after reading the 8-byte header
/// (size and type) of a box while looking for a box type.
#[derive(Clone, Copy, Debug, PartialEq, Eq, Structural)]
pub enum TopLevelStep {
    /// The 32-bit size is 1: read the 64-bit size that follows the header
    /// and decide again with it.
    ReadExtendedSize,
    /// This is the box sought: read its body, of this many bytes.
    ReadBody(u64),
    /// This is the box sought and it runs to the end of the file.
    ReadToEnd,
    /// Not the box sought: skip its body, of this many bytes.
    Skip(u64),
    /// The box sought is not in the file.
    NotFound,
}

/// The step for a box header with 32-bit size `size` and type `box_type`,
/// looking for `name`; `extended` is the 64-bit size once read, and
/// `remaining` the number of bytes of the file after the header. A 64-bit
/// size counts all 16 header bytes (a smaller one leaves an empty body); a
/// size of 0 means "to the end of the file"; a 32-bit size from 2 to 7
/// cannot hold the header, and a body longer than what remains of the file
/// cannot be there: the scan ends at either.
pub open spec fn top_level_next(
    size: u32,
    box_type: Seq<u8>,
    name: Seq<u8>,
    extended: Option<u64>,
    remaining: u64,
) -> TopLevelStep {
    if size == 1 {
        match extended {
            None => TopLevelStep::ReadExtendedSize,
            Some(full) => {
                let body: u64 = if full >= 16 {
                    (full - 16) as u64
                } else {
                    0
                };
                if body > remaining {
                    TopLevelStep::NotFound
                } else if box_type == name {
                    TopLevelStep::ReadBody(body)
                } else {
                    TopLevelStep::Skip(body)
                }
            },
        }
    } else if size == 0 {
        if box_type == name {
            TopLevelStep::ReadToEnd
        } else {
            TopLevelStep::NotFound
        }
    } else if size < 8 || size - 8 > remaining {
        TopLevelStep::NotFound
    } else if box_type == name {
        TopLevelStep::ReadBody((size - 8) as u64)
    } else {
        TopLevelStep::Skip((size - 8) as u64)
    }
}

fn same_type(a: &[u8; 4], b: &[u8; 4]) -> (r: bool)
    ensures
        r == (a@ == b@),
{
    let r = a[0] == b[0] && a[1] == b[1] && a[2] == b[2] && a[3] == b[3];
    proof {
        if r {
            assert(a@ =~= b@);
        }
    }
    r
}

/// Decide the next step of a sequential scan of a file's top-level boxes
/// for the box type `name`, from the header just read and the number of
/// bytes of the file after it. A body read or skipped never runs past the
/// end of the file.
pub fn top_level_step(
    size: u32,
    box_type: &[u8; 4],
    name: &[u8; 4],
    extended: Option<u64>,
    remaining: u64,
) -> (r: TopLevelStep)
    ensures
        r == top_level_next(size, box_type@, name@, extended, remaining),
        r matches TopLevelStep::ReadBody(n) ==> n <= remaining,
        r matches TopLevelStep::Skip(n) ==> n <= remaining,
{
    let is_target = same_type(box_type, name);
    if size == 1 {
        match extended {
            None => TopLevelStep::ReadExtendedSize,
            Some(full) => {
                let body = full.saturating_sub(16);
                if body > remaining {
                    TopLevelStep::NotFound
                } else if is_target {
                    TopLevelStep::ReadBody(body)
                } else {
                    TopLevelStep::Skip(body)
                }
            },
        }
    } else if size == 0 {
        if is_target {
            TopLevelStep::ReadToEnd
        } else {
            TopLevelStep::NotFound
        }
    } else if size < 8 || (size - 8) as u64 > remaining {
        TopLevelStep::NotFound
    } else if is_target {
        TopLevelStep::ReadBody((size - 8) as u64)
    } else {
        TopLevelStep::Skip((size - 8) as u64)
    }
}

/// The body that a sequential scan of the top-level boxes of a file whose
/// bytes are `file` reads, starting at offset `pos` and taking at each box
/// the step that `top_level_step` decides with what remains of the file.
pub open spec fn file_scan(file: Seq<u8>, name: Seq<u8>, pos: int) -> Option<Seq<u8>>
    decreases file.len() - pos,
{
    if pos < 0 || pos + 8 > file.len() {
        None
    } else {
        let size = spec_be_u32(file, pos) as u32;
        let box_type = file.subrange(pos + 4, pos + 8);
        let first = top_level_next(size, box_type, name, None, (file.len() - pos - 8) as u64);
        let extended = first == TopLevelStep::ReadExtendedSize;
        let header: int = if extended {
            16
        } else {
            8
        };
        let step = if !extended {
            first
        } else if pos + 16 > file.len() {
            TopLevelStep::NotFound
        } else {
            top_level_next(
                size,
                box_type,
                name,
                Some(spec_be_u64(file, pos + 8) as u64),
                (file.len() - pos - 16) as u64,
            )
        };
        match step {
            TopLevelStep::ReadBody(n) => if pos + header + n <= file.len() {
                Some(file.subrange(pos + header, pos + header + n))
            } else {
                None
            },
            TopLevelStep::ReadToEnd => Some(file.subrange(pos + 8, file.len() as int)),
            TopLevelStep::Skip(n) => if pos + header + n <= file.len() {
                file_scan(file, name, pos + header + n)
            } else {
                None
            },
            _ => None,
        }
    }
}

/// No box header met by the search for `name` from `pos` uses the special
/// sizes 0 ("to the end of the file") or 1 ("64-bit size follows").
pub open spec fn plain_headers(file: Seq<u8>, name: Seq<u8>, pos: int) -> bool
    decreases file.len() - pos,
{
    if pos < 0 || pos + 8 > file.len() {
        true
    } else {
        let size = spec_be_u32(file, pos);
        &&& size != 0
        &&& size != 1
        &&& (box_fits(file, pos) && !has_tag_at(file, pos + 4, name)) ==> plain_headers(
            file,
            name,
            pos + size,
        )
    }
}

proof fn lemma_file_scan_from(file: Seq<u8>, name: Seq<u8>, pos: int)
    requires
        0 <= pos,
        file.len() <= u64::MAX,
        plain_headers(file, name, pos),
    ensures
        file_scan(file, name, pos) == first_child_from(file, name, pos),
    decreases file.len() - pos,
{
    if pos + 8 <= file.len() {
        let size = spec_be_u32(file, pos);
        assert(file.subrange(pos + 4, pos + 8) == name <==> has_tag_at(file, pos + 4, name));
        if box_fits(file, pos) && !has_tag_at(file, pos + 4, name) {
            lemma_file_scan_from(file, name, pos + size);
        }
    }
}

/// Where no header uses the special sizes 0 or 1, scanning a file's
/// top-level boxes step by step finds the same body as searching the file's
/// bytes for a child box.
pub proof fn law_file_scan_agrees_with_child_search(file: Seq<u8>, name: Seq<u8>)
    requires
        file.len() <= u64::MAX,
        plain_headers(file, name, 0),
    ensures
        file_scan(file, name, 0) == first_child(file, name),
{
    lemma_file_scan_from(file, name, 0);
}

/// Scan the top-level boxes of a file held in memory for the first box of
/// type `name`, step by step as `top_level_step` decides, and return its body.
pub fn find_top_level_box<'a>(file: &'a [u8], name: &[u8; 4]) -> (r: Option<&'a [u8]>)
    ensures
        match r {
            Some(b) => file_scan(file@, name@, 0) == Some(b@),
            None => file_scan(file@, name@, 0) is None,
        },
{
    let mut pos: usize = 0;
    while pos < file.len() && file.len() - pos >= 8
        invariant
            pos <= file@.len(),
            file_scan(file@, name@, 0) == file_scan(file@, name@, pos as int),
        decreases file@.len() - pos,
    {
        let size = be_u32(file, pos);
        let box_type: [u8; 4] = [file[pos + 4], file[pos + 5], file[pos + 6], file[pos + 7]];
        assert(box_type@ =~= file@.subrange(pos + 4, pos + 8));
        let remaining = (file.len() - pos - 8) as u64;
        let first = top_level_step(size, &box_type, name, None, remaining);
        let mut header: usize = 8;
        let mut step = first;
        if first == TopLevelStep::ReadExtendedSize {
            if file.len() - pos < 16 {
                return None;
            }
            let full = be_u64(file, pos + 8);
            step = top_level_step(size, &box_type, name, Some(full), (file.len() - pos - 16) as u64);
            header = 16;
        }
        match step {
            TopLevelStep::ReadBody(n) => {
                let end = pos + header + n as usize;
                return Some(vstd::slice::slice_subrange(file, pos + header, end));
            },
            TopLevelStep::ReadToEnd => {
                return Some(vstd::slice::slice_subrange(file, pos + 8, file.len()));
            },
            TopLevelStep::Skip(n) => {
                pos = pos + header + n as usize;
            },
            _ => {
                return None;
            },
        }
    }
    None
}

/// The big-endian bytes of a 64-bit value.
pub open spec fn be64_bytes(v: u64) -> Seq<u8> {
    be32_bytes((v / 0x1_0000_0000) as u32) + be32_bytes((v % 0x1_0000_0000) as u32)
}

/// A box of type `name` with body `body` and a 64-bit size: the 32-bit size
/// 1, the type, the 64-bit size of the whole box (16 header bytes and the
/// body), then the body.
pub open spec fn large_box_bytes(name: Seq<u8>, body: Seq<u8>) -> Seq<u8> {
    be32_bytes(1) + name + be64_bytes((body.len() + 16) as u64) + body
}

proof fn lemma_file_scan_shift(a: Seq<u8>, b: Seq<u8>, name: Seq<u8>, j: int)
    requires
        0 <= j,
    ensures
        file_scan(a + b, name, a.len() + j) == file_scan(b, name, j),
    decreases b.len() - j,
{
    let ab = a + b;
    let i = a.len() + j;
    if j + 8 <= b.len() {
        assert(spec_be_u32(ab, i) == spec_be_u32(b, j));
        assert(ab.subrange(i + 4, i + 8) =~= b.subrange(j + 4, j + 8));
        if j + 16 <= b.len() {
            assert(spec_be_u32(ab, i + 8) == spec_be_u32(b, j + 8));
            assert(spec_be_u32(ab, i + 12) == spec_be_u32(b, j + 12));
            assert(spec_be_u64(ab, i + 8) == spec_be_u64(b, j + 8));
        }
        assert forall|h: int, n: int| 0 <= h && 0 <= n && j + h + n <= b.len() implies #[trigger] ab.subrange(
            i + h,
            i + h + n,
        ) =~= b.subrange(j + h, j + h + n) by {}
        assert(ab.subrange(i + 8, ab.len() as int) =~= b.subrange(j + 8, b.len() as int));
        assert(ab.subrange(i + 8, i + 8 + (b.len() - j - 8)) == b.subrange(j + 8, j + 8 + (b.len() - j - 8)));
        let size = spec_be_u32(b, j) as u32;
        let box_type = b.subrange(j + 4, j + 8);
        let first = top_level_next(size, box_type, name, None, (b.len() - j - 8) as u64);
        let extended = first == TopLevelStep::ReadExtendedSize;
        let header: int = if extended {
            16
        } else {
            8
        };
        let step = if !extended {
            first
        } else if j + 16 > b.len() {
            TopLevelStep::NotFound
        } else {
            top_level_next(
                size,
                box_type,
                name,
                Some(spec_be_u64(b, j + 8) as u64),
                (b.len() - j - 16) as u64,
            )
        };
        match step {
            TopLevelStep::ReadBody(n) => {
                if j + header + n <= b.len() {
                    assert(ab.subrange(i + header, i + header + n) =~= b.subrange(
                        j + header,
                        j + header + n,
                    ));
                }
            },
            TopLevelStep::Skip(n) => {
                if j + header + n <= b.len() {
                    lemma_file_scan_shift(a, b, name, j + header + n);
                }
            },
            _ => {},
        }
    }
}

proof fn lemma_large_box_header(name: Seq<u8>, body: Seq<u8>, rest: Seq<u8>)
    requires
        name.len() == 4,
        body.len() + 16 <= u64::MAX,
    ensures
        ({
            let d = large_box_bytes(name, body) + rest;
            &&& d.len() == body.len() + 16 + rest.len()
            &&& spec_be_u32(d, 0) == 1
            &&& d.subrange(4, 8) == name
            &&& spec_be_u64(d, 8) == body.len() + 16
            &&& d.subrange(16, 16 + body.len() as int) == body
        }),
{
    let full = (body.len() + 16) as u64;
    let hi = (full / 0x1_0000_0000) as u32;
    let lo = (full % 0x1_0000_0000) as u32;
    let d = large_box_bytes(name, body) + rest;
    lemma_be32_roundtrip(1);
    lemma_be32_roundtrip(hi);
    lemma_be32_roundtrip(lo);
    assert(spec_be_u32(d, 0) == spec_be_u32(be32_bytes(1), 0));
    assert(d.subrange(4, 8) =~= name);
    assert(spec_be_u32(d, 8) == spec_be_u32(be32_bytes(hi), 0));
    assert(spec_be_u32(d, 12) == spec_be_u32(be32_bytes(lo), 0));
    assert(hi * 0x1_0000_0000 + lo == full);
    assert(d.subrange(16, 16 + body.len() as int) =~= body);
}

/// A top-level box of another type with a 64-bit size is stepped over
/// whole, its 16 header bytes and its body: the scan goes on in what
/// follows it.
pub proof fn law_large_other_box_is_stepped_over(
    other: Seq<u8>,
    body: Seq<u8>,
    rest: Seq<u8>,
    name: Seq<u8>,
)
    requires
        other.len() == 4,
        other != name,
        body.len() + rest.len() + 16 <= u64::MAX,
    ensures
        file_scan(large_box_bytes(other, body) + rest, name, 0) == file_scan(rest, name, 0),
{
    let front = large_box_bytes(other, body);
    lemma_large_box_header(other, body, rest);
    lemma_file_scan_shift(front, rest, name, 0);
}

/// A top-level box of the type sought with a 64-bit size is found, and its
/// body is what the scan reads.
pub proof fn law_large_box_is_found(name: Seq<u8>, body: Seq<u8>, rest: Seq<u8>)
    requires
        name.len() == 4,
        body.len() + rest.len() + 16 <= u64::MAX,
    ensures
        file_scan(large_box_bytes(name, body) + rest, name, 0) == Some(body),
{
    lemma_large_box_header(name, body, rest);
}

/// A top-level box of another type with a 32-bit size is stepped over
/// whole: the scan goes on in what follows it.
pub proof fn law_other_box_is_stepped_over(other: Seq<u8>, body: Seq<u8>, rest: Seq<u8>, name: Seq<u8>)
    requires
        other.len() == 4,
        other != name,
        body.len() + 8 <= u32::MAX,
        body.len() + rest.len() + 8 <= u64::MAX,
    ensures
        file_scan(box_bytes(other, body) + rest, name, 0) == file_scan(rest, name, 0),
{
    let front = box_bytes(other, body);
    lemma_front_box(other, body, rest, name);
    lemma_front_box(other, body, rest, other);
    lemma_file_scan_shift(front, rest, name, 0);
}

/// A top-level box of the type sought with a 32-bit size is found, and its
/// body is what the scan reads.
pub proof fn law_box_is_found_in_file(name: Seq<u8>, body: Seq<u8>, rest: Seq<u8>)
    requires
        name.len() == 4,
        body.len() + 8 <= u32::MAX,
        body.len() + rest.len() + 8 <= u64::MAX,
    ensures
        file_scan(box_bytes(name, body) + rest, name, 0) == Some(body),
{
    let d = box_bytes(name, body) + rest;
    lemma_front_box(name, body, rest, name);
    assert(d.subrange(8, 8 + body.len() as int) =~= body);
}

/// A top-level box of the type sought whose size is 0 runs to the end of
/// the file: all that follows its header is its body.
pub proof fn law_open_box_runs_to_end(name: Seq<u8>, body: Seq<u8>)
    requires
        name.len() == 4,
        body.len() + 8 <= u64::MAX,
    ensures
        file_scan(be32_bytes(0) + name + body, name, 0) == Some(body),
{
    let d = be32_bytes(0) + name + body;
    lemma_be32_roundtrip(0);
    assert(spec_be_u32(d, 0) == spec_be_u32(be32_bytes(0), 0));
    assert(d.subrange(4, 8) =~= name);
    assert(d.subrange(8, d.len() as int) =~= body);
}

} // verus!
