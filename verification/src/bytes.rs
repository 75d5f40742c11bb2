//! Fixed-width integers and four-byte tags read from byte slices.
use vstd::prelude::*;

verus! {

/// The big-endian value of the two bytes of `s` at `i`.
pub open spec fn spec_be_u16(s: Seq<u8>, i: int) -> int {
    s[i] * 0x100 + s[i + 1]
}

/// The big-endian value of the four bytes of `s` at `i`.
pub open spec fn spec_be_u32(s: Seq<u8>, i: int) -> int {
    s[i] * 0x100_0000 + s[i + 1] * 0x1_0000 + s[i + 2] * 0x100 + s[i + 3]
}

/// The big-endian value of the eight bytes of `s` at `i`.
pub open spec fn spec_be_u64(s: Seq<u8>, i: int) -> int {
    spec_be_u32(s, i) * 0x1_0000_0000 + spec_be_u32(s, i + 4)
}

/// The little-endian value of the two bytes of `s` at `i`.
pub open spec fn spec_le_u16(s: Seq<u8>, i: int) -> int {
    s[i] + s[i + 1] * 0x100
}

/// The little-endian value of the three bytes of `s` at `i`.
pub open spec fn spec_le_u24(s: Seq<u8>, i: int) -> int {
    s[i] + s[i + 1] * 0x100 + s[i + 2] * 0x1_0000
}

/// The little-endian value of the four bytes of `s` at `i`.
pub open spec fn spec_le_u32(s: Seq<u8>, i: int) -> int {
    s[i] + s[i + 1] * 0x100 + s[i + 2] * 0x1_0000 + s[i + 3] * 0x100_0000
}

/// The big-endian `u16` at `i`.
pub fn be_u16(s: &[u8], i: usize) -> (r: u16)
    requires
        i + 2 <= s@.len(),
    ensures
        r == spec_be_u16(s@, i as int),
{
    (s[i] as u16) * 0x100 + (s[i + 1] as u16)
}

/// The big-endian `u32` at `i`.
pub fn be_u32(s: &[u8], i: usize) -> (r: u32)
    requires
        i + 4 <= s@.len(),
    ensures
        r == spec_be_u32(s@, i as int),
{
    (s[i] as u32) * 0x100_0000 + (s[i + 1] as u32) * 0x1_0000 + (s[i + 2] as u32) * 0x100 + (
    s[i + 3] as u32)
}

/// The big-endian `u64` at `i`.
pub fn be_u64(s: &[u8], i: usize) -> (r: u64)
    requires
        i + 8 <= s.len(),
    ensures
        r == spec_be_u64(s@, i as int),
{
    let hi = be_u32(s, i) as u64;
    let lo = be_u32(s, i + 4) as u64;
    hi * 0x1_0000_0000 + lo
}

/// The little-endian `u16` at `i`.
pub fn le_u16(s: &[u8], i: usize) -> (r: u16)
    requires
        i + 2 <= s@.len(),
    ensures
        r == spec_le_u16(s@, i as int),
{
    (s[i] as u16) + (s[i + 1] as u16) * 0x100
}

/// The little-endian 24-bit value at `i`.
pub fn le_u24(s: &[u8], i: usize) -> (r: u32)
    requires
        i + 3 <= s@.len(),
    ensures
        r == spec_le_u24(s@, i as int),
{
    (s[i] as u32) + (s[i + 1] as u32) * 0x100 + (s[i + 2] as u32) * 0x1_0000
}

/// The little-endian `u32` at `i`.
pub fn le_u32(s: &[u8], i: usize) -> (r: u32)
    requires
        i + 4 <= s@.len(),
    ensures
        r == spec_le_u32(s@, i as int),
{
    (s[i] as u32) + (s[i + 1] as u32) * 0x100 + (s[i + 2] as u32) * 0x1_0000 + (s[i + 3] as u32)
        * 0x100_0000
}

/// Whether the four bytes of `s` at `i` are `name`.
pub open spec fn has_tag_at(s: Seq<u8>, i: int, name: Seq<u8>) -> bool {
    s.subrange(i, i + 4) == name
}

/// Whether the four bytes at `i` are `name`.
pub fn tag_at(s: &[u8], i: usize, name: &[u8; 4]) -> (r: bool)
    requires
        i + 4 <= s@.len(),
    ensures
        r == has_tag_at(s@, i as int, name@),
{
    let r = s[i] == name[0] && s[i + 1] == name[1] && s[i + 2] == name[2] && s[i + 3] == name[3];
    proof {
        let sub = s@.subrange(i as int, i + 4);
        if r {
            assert(sub =~= name@);
        } else {
            assert(sub[0] == s@[i as int] && sub[1] == s@[i + 1] && sub[2] == s@[i + 2] && sub[3]
                == s@[i + 3]);
        }
    }
    r
}

} // verus!
