use vstd::prelude::*;

verus! {

// Four-character box types used by the readers, as byte arrays for the code
// and as sequences for the contracts.

/// The box type `moov`.
pub open spec fn tag_moov() -> Seq<u8> {
    seq![0x6du8, 0x6f, 0x6f, 0x76]
}

/// The box type `moov`.
pub fn moov() -> (r: [u8; 4])
    ensures
        r@ == tag_moov(),
{
    let r = [0x6du8, 0x6f, 0x6f, 0x76];
    assert(r@ =~= tag_moov());
    r
}

/// The box type `udta`.
pub open spec fn tag_udta() -> Seq<u8> {
    seq![0x75u8, 0x64, 0x74, 0x61]
}

/// The box type `udta`.
pub fn udta() -> (r: [u8; 4])
    ensures
        r@ == tag_udta(),
{
    let r = [0x75u8, 0x64, 0x74, 0x61];
    assert(r@ =~= tag_udta());
    r
}

/// The box type `meta`.
pub open spec fn tag_meta() -> Seq<u8> {
    seq![0x6du8, 0x65, 0x74, 0x61]
}

/// The box type `meta`.
pub fn meta() -> (r: [u8; 4])
    ensures
        r@ == tag_meta(),
{
    let r = [0x6du8, 0x65, 0x74, 0x61];
    assert(r@ =~= tag_meta());
    r
}

/// The box type `ilst`.
pub open spec fn tag_ilst() -> Seq<u8> {
    seq![0x69u8, 0x6c, 0x73, 0x74]
}

/// The box type `ilst`.
pub fn ilst() -> (r: [u8; 4])
    ensures
        r@ == tag_ilst(),
{
    let r = [0x69u8, 0x6c, 0x73, 0x74];
    assert(r@ =~= tag_ilst());
    r
}

/// The box type `data`.
pub open spec fn tag_data() -> Seq<u8> {
    seq![0x64u8, 0x61, 0x74, 0x61]
}

/// The box type `data`.
pub fn data() -> (r: [u8; 4])
    ensures
        r@ == tag_data(),
{
    let r = [0x64u8, 0x61, 0x74, 0x61];
    assert(r@ =~= tag_data());
    r
}

/// The box type `mvhd`.
pub open spec fn tag_mvhd() -> Seq<u8> {
    seq![0x6du8, 0x76, 0x68, 0x64]
}

/// The box type `mvhd`.
pub fn mvhd() -> (r: [u8; 4])
    ensures
        r@ == tag_mvhd(),
{
    let r = [0x6du8, 0x76, 0x68, 0x64];
    assert(r@ =~= tag_mvhd());
    r
}

/// The box type `trak`.
pub open spec fn tag_trak() -> Seq<u8> {
    seq![0x74u8, 0x72, 0x61, 0x6b]
}

/// The box type `trak`.
pub fn trak() -> (r: [u8; 4])
    ensures
        r@ == tag_trak(),
{
    let r = [0x74u8, 0x72, 0x61, 0x6b];
    assert(r@ =~= tag_trak());
    r
}

/// The box type `mdia`.
pub open spec fn tag_mdia() -> Seq<u8> {
    seq![0x6du8, 0x64, 0x69, 0x61]
}

/// The box type `mdia`.
pub fn mdia() -> (r: [u8; 4])
    ensures
        r@ == tag_mdia(),
{
    let r = [0x6du8, 0x64, 0x69, 0x61];
    assert(r@ =~= tag_mdia());
    r
}

/// The box type `hdlr`.
pub open spec fn tag_hdlr() -> Seq<u8> {
    seq![0x68u8, 0x64, 0x6c, 0x72]
}

/// The box type `hdlr`.
pub fn hdlr() -> (r: [u8; 4])
    ensures
        r@ == tag_hdlr(),
{
    let r = [0x68u8, 0x64, 0x6c, 0x72];
    assert(r@ =~= tag_hdlr());
    r
}

/// The box type `tkhd`.
pub open spec fn tag_tkhd() -> Seq<u8> {
    seq![0x74u8, 0x6b, 0x68, 0x64]
}

/// The box type `tkhd`.
pub fn tkhd() -> (r: [u8; 4])
    ensures
        r@ == tag_tkhd(),
{
    let r = [0x74u8, 0x6b, 0x68, 0x64];
    assert(r@ =~= tag_tkhd());
    r
}

/// The box type `vide`.
pub open spec fn tag_vide() -> Seq<u8> {
    seq![0x76u8, 0x69, 0x64, 0x65]
}

/// The box type `vide`.
pub fn vide() -> (r: [u8; 4])
    ensures
        r@ == tag_vide(),
{
    let r = [0x76u8, 0x69, 0x64, 0x65];
    assert(r@ =~= tag_vide());
    r
}

/// The box type `covr`.
pub open spec fn tag_covr() -> Seq<u8> {
    seq![0x63u8, 0x6f, 0x76, 0x72]
}

/// The box type `covr`.
pub fn covr() -> (r: [u8; 4])
    ensures
        r@ == tag_covr(),
{
    let r = [0x63u8, 0x6f, 0x76, 0x72];
    assert(r@ =~= tag_covr());
    r
}

/// The box type `\xa9xyz`: ISO 6709 location text.
pub open spec fn tag_atom_xyz() -> Seq<u8> {
    seq![0xa9u8, 0x78, 0x79, 0x7a]
}

/// The box type `\xa9xyz`: ISO 6709 location text.
pub fn atom_xyz() -> (r: [u8; 4])
    ensures
        r@ == tag_atom_xyz(),
{
    let r = [0xa9u8, 0x78, 0x79, 0x7a];
    assert(r@ =~= tag_atom_xyz());
    r
}

/// The box type `\xa9mak`: camera make.
pub open spec fn tag_atom_mak() -> Seq<u8> {
    seq![0xa9u8, 0x6d, 0x61, 0x6b]
}

/// The box type `\xa9mak`: camera make.
pub fn atom_mak() -> (r: [u8; 4])
    ensures
        r@ == tag_atom_mak(),
{
    let r = [0xa9u8, 0x6d, 0x61, 0x6b];
    assert(r@ =~= tag_atom_mak());
    r
}

/// The box type `\xa9mod`: camera model.
pub open spec fn tag_atom_mod() -> Seq<u8> {
    seq![0xa9u8, 0x6d, 0x6f, 0x64]
}

/// The box type `\xa9mod`: camera model.
pub fn atom_mod() -> (r: [u8; 4])
    ensures
        r@ == tag_atom_mod(),
{
    let r = [0xa9u8, 0x6d, 0x6f, 0x64];
    assert(r@ =~= tag_atom_mod());
    r
}

/// The box type `moof`.
pub open spec fn tag_moof() -> Seq<u8> {
    seq![0x6du8, 0x6f, 0x6f, 0x66]
}

/// The box type `moof`.
pub fn moof() -> (r: [u8; 4])
    ensures
        r@ == tag_moof(),
{
    let r = [0x6du8, 0x6f, 0x6f, 0x66];
    assert(r@ =~= tag_moof());
    r
}

/// The box type `emsg`.
pub open spec fn tag_emsg() -> Seq<u8> {
    seq![0x65u8, 0x6d, 0x73, 0x67]
}

/// The box type `emsg`.
pub fn emsg() -> (r: [u8; 4])
    ensures
        r@ == tag_emsg(),
{
    let r = [0x65u8, 0x6d, 0x73, 0x67];
    assert(r@ =~= tag_emsg());
    r
}

/// The box type `mvex`.
pub open spec fn tag_mvex() -> Seq<u8> {
    seq![0x6du8, 0x76, 0x65, 0x78]
}

/// The box type `mvex`.
pub fn mvex() -> (r: [u8; 4])
    ensures
        r@ == tag_mvex(),
{
    let r = [0x6du8, 0x76, 0x65, 0x78];
    assert(r@ =~= tag_mvex());
    r
}

/// The box type `minf`.
pub open spec fn tag_minf() -> Seq<u8> {
    seq![0x6du8, 0x69, 0x6e, 0x66]
}

/// The box type `minf`.
pub fn minf() -> (r: [u8; 4])
    ensures
        r@ == tag_minf(),
{
    let r = [0x6du8, 0x69, 0x6e, 0x66];
    assert(r@ =~= tag_minf());
    r
}

/// The box type `dinf`.
pub open spec fn tag_dinf() -> Seq<u8> {
    seq![0x64u8, 0x69, 0x6e, 0x66]
}

/// The box type `dinf`.
pub fn dinf() -> (r: [u8; 4])
    ensures
        r@ == tag_dinf(),
{
    let r = [0x64u8, 0x69, 0x6e, 0x66];
    assert(r@ =~= tag_dinf());
    r
}

/// The box type `dref`.
pub open spec fn tag_dref() -> Seq<u8> {
    seq![0x64u8, 0x72, 0x65, 0x66]
}

/// The box type `dref`.
pub fn dref() -> (r: [u8; 4])
    ensures
        r@ == tag_dref(),
{
    let r = [0x64u8, 0x72, 0x65, 0x66];
    assert(r@ =~= tag_dref());
    r
}

/// The box type `stbl`.
pub open spec fn tag_stbl() -> Seq<u8> {
    seq![0x73u8, 0x74, 0x62, 0x6c]
}

/// The box type `stbl`.
pub fn stbl() -> (r: [u8; 4])
    ensures
        r@ == tag_stbl(),
{
    let r = [0x73u8, 0x74, 0x62, 0x6c];
    assert(r@ =~= tag_stbl());
    r
}

/// The box type `traf`.
pub open spec fn tag_traf() -> Seq<u8> {
    seq![0x74u8, 0x72, 0x61, 0x66]
}

/// The box type `traf`.
pub fn traf() -> (r: [u8; 4])
    ensures
        r@ == tag_traf(),
{
    let r = [0x74u8, 0x72, 0x61, 0x66];
    assert(r@ =~= tag_traf());
    r
}

} // verus!
