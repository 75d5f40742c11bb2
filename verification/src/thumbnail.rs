//! Turning a decoded RGB frame upright and encoding it as a JPEG thumbnail.
//!
//! Pixels are packed RGB, 3 bytes each, row after row: the byte `k` of the
//! pixel at (`row`, `col`) of an image `width` pixels wide is at
//! `px(width, row, col, k)`.
use vstd::prelude::*;
use vstd::arithmetic::div_mod::{
    lemma_div_pos_is_pos, lemma_fundamental_div_mod, lemma_fundamental_div_mod_converse,
    lemma_mod_bound,
};

verus! {

/// The index of byte `k` of the pixel at (`row`, `col`) in a packed RGB
/// image `width` pixels wide.
pub open spec fn px(width: int, row: int, col: int, k: int) -> int {
    (row * width + col) * 3 + k
}

/// For output byte `i` of a 90° clockwise turn of a `w`×`h` image (the
/// output is `h` wide and `w` tall), the input byte it comes from: output
/// (row, col) shows input (h-1-col, row).
pub open spec fn rot90_src(w: int, h: int, i: int) -> int {
    let p = i / 3;
    px(w, h - 1 - p % h, p / h, i % 3)
}

/// For output byte `i` of a 270° clockwise turn of a `w`×`h` image (`h`
/// wide and `w` tall), the input byte it comes from: output (row, col)
/// shows input (col, w-1-row).
pub open spec fn rot270_src(w: int, h: int, i: int) -> int {
    let p = i / 3;
    px(w, p % h, w - 1 - p / h, i % 3)
}

/// `pixels`, a `w`×`h` image followed by any further bytes, turned 90°
/// clockwise; the bytes past the image become zero.
pub open spec fn rotated_90(pixels: Seq<u8>, w: int, h: int) -> Seq<u8> {
    Seq::new(
        pixels.len(),
        |i: int|
            if i < w * h * 3 {
                pixels[rot90_src(w, h, i)]
            } else {
                0u8
            },
    )
}

/// `pixels`, a `w`×`h` image followed by any further bytes, turned 270°
/// clockwise; the bytes past the image become zero.
pub open spec fn rotated_270(pixels: Seq<u8>, w: int, h: int) -> Seq<u8> {
    Seq::new(
        pixels.len(),
        |i: int|
            if i < w * h * 3 {
                pixels[rot270_src(w, h, i)]
            } else {
                0u8
            },
    )
}

/// The byte that output byte `i` of a half turn of `n` pixels comes from.
pub open spec fn rot180_src(n: int, i: int) -> int {
    (n - 1 - i / 3) * 3 + i % 3
}

/// `pixels` with the order of its whole 3-byte pixels reversed; a trailing
/// partial pixel stays where it is.
pub open spec fn rotated_180(pixels: Seq<u8>) -> Seq<u8> {
    let n = (pixels.len() / 3) as int;
    Seq::new(
        pixels.len(),
        |i: int|
            if i < n * 3 {
                pixels[rot180_src(n, i)]
            } else {
                pixels[i]
            },
    )
}

proof fn lemma_px_in_image(width: int, height: int, row: int, col: int, k: int)
    requires
        0 <= row < height,
        0 <= col < width,
        0 <= k < 3,
    ensures
        0 <= row * width,
        0 <= px(width, row, col, k),
        px(width, row, col, k) < width * height * 3,
        px(width, row, col, 0) + 3 <= width * height * 3,
{
    assert(0 <= row * width) by (nonlinear_arith)
        requires
            0 <= row,
            0 <= width,
    ;
    assert(row * width + col < width * height) by (nonlinear_arith)
        requires
            0 <= row < height,
            0 <= col < width,
    ;
}

proof fn lemma_px_split(width: int, row: int, col: int, k: int)
    requires
        0 < width,
        0 <= row,
        0 <= col < width,
        0 <= k < 3,
    ensures
        px(width, row, col, k) / 3 == row * width + col,
        px(width, row, col, k) % 3 == k,
        (row * width + col) / width == row,
        (row * width + col) % width == col,
{
    lemma_fundamental_div_mod_converse(px(width, row, col, k), 3, row * width + col, k);
    lemma_fundamental_div_mod_converse(row * width + col, width, row, col);
}

/// 90° clockwise: output dimensions are h × w.
/// Input  (row, col) → output (col, h-1-row).
pub fn rotate_90cw(pixels: &[u8], w: usize, h: usize) -> (out: Vec<u8>)
    requires
        w * h * 3 <= pixels@.len(),
    ensures
        out@ == rotated_90(pixels@, w as int, h as int),
{
    let ghost wi = w as int;
    let ghost hi = h as int;
    let mut out: Vec<u8> = Vec::new();
    let mut orow: usize = 0;
    while orow < w
        invariant
            wi == w && hi == h,
            w * h * 3 <= pixels@.len(),
            orow <= w,
            out@.len() == orow * h * 3,
            forall|i: int| 0 <= i < out@.len() ==> #[trigger] out@[i] == pixels@[rot90_src(wi, hi, i)],
        decreases w - orow,
    {
        let mut ocol: usize = 0;
        while ocol < h
            invariant
                wi == w && hi == h,
                w * h * 3 <= pixels@.len(),
                orow < w,
                ocol <= h,
                out@.len() == (orow * h + ocol) * 3,
                forall|i: int|
                    0 <= i < out@.len() ==> #[trigger] out@[i] == pixels@[rot90_src(wi, hi, i)],
            decreases h - ocol,
        {
            proof {
                lemma_px_in_image(wi, hi, hi - 1 - ocol, orow as int, 0);
                assert(pixels@.len() == pixels.len());
            }
            let src = ((h - 1 - ocol) * w + orow) * 3;
            let ghost base = out@.len() as int;
            out.push(pixels[src]);
            out.push(pixels[src + 1]);
            out.push(pixels[src + 2]);
            proof {
                assert forall|i: int| base <= i < base + 3 implies #[trigger] out@[i]
                    == pixels@[rot90_src(wi, hi, i)] by {
                    lemma_px_split(hi, orow as int, ocol as int, i - base);
                    assert(i == px(hi, orow as int, ocol as int, i - base));
                }
                assert((orow * h + ocol + 1) * 3 == (orow * h + ocol) * 3 + 3);
            }
            ocol += 1;
        }
        proof {
            assert((orow * h + h) * 3 == (orow + 1) * h * 3) by (nonlinear_arith);
        }
        orow += 1;
    }
    proof {
        assert(out@.len() == w * h * 3);
    }
    while out.len() < pixels.len()
        invariant
            wi == w && hi == h,
            w * h * 3 <= out@.len() <= pixels@.len(),
            forall|i: int|
                0 <= i < out@.len() ==> #[trigger] out@[i] == (if i < w * h * 3 {
                    pixels@[rot90_src(wi, hi, i)]
                } else {
                    0u8
                }),
        decreases pixels@.len() - out@.len(),
    {
        out.push(0);
    }
    assert(out@ =~= rotated_90(pixels@, wi, hi));
    out
}

/// 270° clockwise (= 90° counter-clockwise): output dimensions are h × w.
/// Input  (row, col) → output (w-1-col, row).
pub fn rotate_270cw(pixels: &[u8], w: usize, h: usize) -> (out: Vec<u8>)
    requires
        w * h * 3 <= pixels@.len(),
    ensures
        out@ == rotated_270(pixels@, w as int, h as int),
{
    let ghost wi = w as int;
    let ghost hi = h as int;
    let mut out: Vec<u8> = Vec::new();
    let mut orow: usize = 0;
    while orow < w
        invariant
            wi == w && hi == h,
            w * h * 3 <= pixels@.len(),
            orow <= w,
            out@.len() == orow * h * 3,
            forall|i: int|
                0 <= i < out@.len() ==> #[trigger] out@[i] == pixels@[rot270_src(wi, hi, i)],
        decreases w - orow,
    {
        let mut ocol: usize = 0;
        while ocol < h
            invariant
                wi == w && hi == h,
                w * h * 3 <= pixels@.len(),
                orow < w,
                ocol <= h,
                out@.len() == (orow * h + ocol) * 3,
                forall|i: int|
                    0 <= i < out@.len() ==> #[trigger] out@[i] == pixels@[rot270_src(wi, hi, i)],
            decreases h - ocol,
        {
            proof {
                lemma_px_in_image(wi, hi, ocol as int, wi - 1 - orow, 0);
                assert(pixels@.len() == pixels.len());
            }
            let src = (ocol * w + (w - 1 - orow)) * 3;
            let ghost base = out@.len() as int;
            out.push(pixels[src]);
            out.push(pixels[src + 1]);
            out.push(pixels[src + 2]);
            proof {
                assert forall|i: int| base <= i < base + 3 implies #[trigger] out@[i]
                    == pixels@[rot270_src(wi, hi, i)] by {
                    lemma_px_split(hi, orow as int, ocol as int, i - base);
                    assert(i == px(hi, orow as int, ocol as int, i - base));
                }
                assert((orow * h + ocol + 1) * 3 == (orow * h + ocol) * 3 + 3);
            }
            ocol += 1;
        }
        proof {
            assert((orow * h + h) * 3 == (orow + 1) * h * 3) by (nonlinear_arith);
        }
        orow += 1;
    }
    proof {
        assert(out@.len() == w * h * 3);
    }
    while out.len() < pixels.len()
        invariant
            wi == w && hi == h,
            w * h * 3 <= out@.len() <= pixels@.len(),
            forall|i: int|
                0 <= i < out@.len() ==> #[trigger] out@[i] == (if i < w * h * 3 {
                    pixels@[rot270_src(wi, hi, i)]
                } else {
                    0u8
                }),
        decreases pixels@.len() - out@.len(),
    {
        out.push(0);
    }
    assert(out@ =~= rotated_270(pixels@, wi, hi));
    out
}

/// 180°: reverse the order of the pixels.
pub fn rotate_180(pixels: Vec<u8>) -> (out: Vec<u8>)
    ensures
        out@ == rotated_180(pixels@),
{
    let len = pixels.len();
    let n = len / 3;
    let ghost ni = n as int;
    let mut out: Vec<u8> = Vec::new();
    let mut q: usize = 0;
    while q < n
        invariant
            ni == n,
            n == pixels@.len() / 3,
            len == pixels@.len(),
            q <= n,
            out@.len() == q * 3,
            forall|i: int| 0 <= i < out@.len() ==> #[trigger] out@[i] == pixels@[rot180_src(ni, i)],
        decreases n - q,
    {
        let src = (n - 1 - q) * 3;
        let ghost base = out@.len() as int;
        out.push(pixels[src]);
        out.push(pixels[src + 1]);
        out.push(pixels[src + 2]);
        proof {
            assert forall|i: int| base <= i < base + 3 implies #[trigger] out@[i]
                == pixels@[rot180_src(ni, i)] by {
                lemma_fundamental_div_mod_converse(i, 3, q as int, i - base);
            }
        }
        q += 1;
    }
    while out.len() < len
        invariant
            ni == n,
            n == pixels@.len() / 3,
            len == pixels@.len(),
            n * 3 <= out@.len() <= len,
            forall|i: int|
                0 <= i < out@.len() ==> #[trigger] out@[i] == (if i < n * 3 {
                    pixels@[rot180_src(ni, i)]
                } else {
                    pixels@[i]
                }),
        decreases len - out@.len(),
    {
        let i = out.len();
        out.push(pixels[i]);
    }
    assert(out@ =~= rotated_180(pixels@));
    out
}

/// A rotation in degrees as a quarter-turn angle in `0..360`: negative
/// angles count the other way round (-90 is 270).
pub open spec fn turn(rotation: i32) -> int {
    rotation as int % 360
}

/// The pixels of a `w`×`h` image turned `rotation` degrees clockwise, with
/// its new width and height; angles other than 90, 180 and 270 leave it as
/// it is.
pub open spec fn rotated(pixels: Seq<u8>, w: u32, h: u32, rotation: i32) -> (Seq<u8>, u32, u32) {
    if turn(rotation) == 90 {
        (rotated_90(pixels, w as int, h as int), h, w)
    } else if turn(rotation) == 180 {
        (rotated_180(pixels), w, h)
    } else if turn(rotation) == 270 {
        (rotated_270(pixels, w as int, h as int), h, w)
    } else {
        (pixels, w, h)
    }
}

/// Rotate pixel data and return (rotated_pixels, new_width, new_height).
/// For 90°/270° the width and height are swapped in the output.
pub fn apply_rotation(pixels: Vec<u8>, w: u32, h: u32, rotation: i32) -> (r: (Vec<u8>, u32, u32))
    requires
        turn(rotation) == 90 || turn(rotation) == 270 ==> w * h * 3 <= pixels@.len(),
    ensures
        (r.0@, r.1, r.2) == rotated(pixels@, w, h, rotation),
{
    let angle = match rotation.checked_rem_euclid(360) {
        Some(a) => a,
        None => 0,
    };
    assert(angle == turn(rotation));
    if angle == 90 {
        (rotate_90cw(pixels.as_slice(), w as usize, h as usize), h, w)
    } else if angle == 180 {
        (rotate_180(pixels), w, h)
    } else if angle == 270 {
        (rotate_270cw(pixels.as_slice(), w as usize, h as usize), h, w)
    } else {
        (pixels, w, h)
    }
}

proof fn lemma_index_px(width: int, height: int, i: int)
    requires
        0 < width,
        0 < height,
        0 <= i < width * height * 3,
    ensures
        0 <= (i / 3) / width < height,
        0 <= (i / 3) % width < width,
        0 <= i % 3 < 3,
        i == px(width, (i / 3) / width, (i / 3) % width, i % 3),
{
    let q = i / 3;
    lemma_fundamental_div_mod(i, 3);
    lemma_mod_bound(i, 3);
    lemma_div_pos_is_pos(i, 3);
    lemma_fundamental_div_mod(q, width);
    lemma_mod_bound(q, width);
    lemma_div_pos_is_pos(q, width);
    let row = q / width;
    let col = q % width;
    assert(q < width * height);
    assert(row < height) by (nonlinear_arith)
        requires
            q == width * row + col,
            0 <= col,
            q < width * height,
            0 < width,
    ;
    assert(width * row == row * width) by (nonlinear_arith);
}

/// Output byte `px(h, col, h-1-row, k)` of a 90° clockwise turn of a
/// `w`×`h` image is input byte `px(w, row, col, k)`.
pub proof fn law_rotate_90_moves_pixels(pixels: Seq<u8>, w: int, h: int, row: int, col: int, k: int)
    requires
        0 <= w,
        0 <= h,
        w * h * 3 <= pixels.len(),
        0 <= row < h,
        0 <= col < w,
        0 <= k < 3,
    ensures
        rotated_90(pixels, w, h)[px(h, col, h - 1 - row, k)] == pixels[px(w, row, col, k)],
{
    lemma_px_in_image(h, w, col, h - 1 - row, k);
    assert(h * w == w * h) by (nonlinear_arith);
    lemma_px_split(h, col, h - 1 - row, k);
}

/// Output byte `px(h, w-1-col, row, k)` of a 270° clockwise turn of a
/// `w`×`h` image is input byte `px(w, row, col, k)`.
pub proof fn law_rotate_270_moves_pixels(pixels: Seq<u8>, w: int, h: int, row: int, col: int, k: int)
    requires
        0 <= w,
        0 <= h,
        w * h * 3 <= pixels.len(),
        0 <= row < h,
        0 <= col < w,
        0 <= k < 3,
    ensures
        rotated_270(pixels, w, h)[px(h, w - 1 - col, row, k)] == pixels[px(w, row, col, k)],
{
    lemma_px_in_image(h, w, w - 1 - col, row, k);
    assert(h * w == w * h) by (nonlinear_arith);
    lemma_px_split(h, w - 1 - col, row, k);
}

/// Turning a `w`×`h` image 90° clockwise and then the `h`×`w` result 270°
/// clockwise gives back the image.
pub proof fn law_rotate_270_undoes_90(pixels: Seq<u8>, w: int, h: int)
    requires
        0 <= w,
        0 <= h,
        pixels.len() == w * h * 3,
    ensures
        rotated_270(rotated_90(pixels, w, h), h, w) == pixels,
{
    let a = rotated_90(pixels, w, h);
    let b = rotated_270(a, h, w);
    assert(h * w == w * h) by (nonlinear_arith);
    assert forall|i: int| 0 <= i < pixels.len() implies #[trigger] b[i] == pixels[i] by {
        assert(w > 0 && h > 0) by (nonlinear_arith)
            requires
                0 <= i < w * h * 3,
                0 <= w,
                0 <= h,
        ;
        lemma_index_px(w, h, i);
        let row = (i / 3) / w;
        let col = (i / 3) % w;
        let k = i % 3;
        // b's byte i is a's byte at output position (col, h-1-row) of the first turn
        law_rotate_90_moves_pixels(pixels, w, h, row, col, k);
        lemma_px_split(w, row, col, k);
        assert(rot270_src(h, w, i) == px(h, col, h - 1 - row, k));
    }
    assert(b =~= pixels);
}

/// Turning a `w`×`h` image 270° clockwise and then the `h`×`w` result 90°
/// clockwise gives back the image.
pub proof fn law_rotate_90_undoes_270(pixels: Seq<u8>, w: int, h: int)
    requires
        0 <= w,
        0 <= h,
        pixels.len() == w * h * 3,
    ensures
        rotated_90(rotated_270(pixels, w, h), h, w) == pixels,
{
    let a = rotated_270(pixels, w, h);
    let b = rotated_90(a, h, w);
    assert(h * w == w * h) by (nonlinear_arith);
    assert forall|i: int| 0 <= i < pixels.len() implies #[trigger] b[i] == pixels[i] by {
        assert(w > 0 && h > 0) by (nonlinear_arith)
            requires
                0 <= i < w * h * 3,
                0 <= w,
                0 <= h,
        ;
        lemma_index_px(w, h, i);
        let row = (i / 3) / w;
        let col = (i / 3) % w;
        let k = i % 3;
        law_rotate_270_moves_pixels(pixels, w, h, row, col, k);
        lemma_px_split(w, row, col, k);
        assert(rot90_src(h, w, i) == px(h, w - 1 - col, row, k));
    }
    assert(b =~= pixels);
}

/// Two half turns give back the pixels.
pub proof fn law_rotate_180_twice_is_identity(pixels: Seq<u8>)
    ensures
        rotated_180(rotated_180(pixels)) == pixels,
{
    let a = rotated_180(pixels);
    let b = rotated_180(a);
    let n = (pixels.len() / 3) as int;
    assert forall|i: int| 0 <= i < pixels.len() implies #[trigger] b[i] == pixels[i] by {
        if i < n * 3 {
            lemma_fundamental_div_mod(i, 3);
            lemma_mod_bound(i, 3);
            let q = i / 3;
            let j = rot180_src(n, i);
            lemma_fundamental_div_mod_converse(j, 3, n - 1 - q, i % 3);
        }
    }
    assert(b =~= pixels);
}

/// Two quarter turns clockwise make a half turn.
pub proof fn law_two_quarter_turns_make_half_turn(pixels: Seq<u8>, w: int, h: int)
    requires
        0 <= w,
        0 <= h,
        pixels.len() == w * h * 3,
    ensures
        rotated_90(rotated_90(pixels, w, h), h, w) == rotated_180(pixels),
{
    let a = rotated_90(pixels, w, h);
    let b = rotated_90(a, h, w);
    let c = rotated_180(pixels);
    assert(h * w == w * h) by (nonlinear_arith);
    assert((pixels.len() / 3) as int == w * h);
    assert forall|i: int| 0 <= i < pixels.len() implies #[trigger] b[i] == c[i] by {
        assert(w > 0 && h > 0) by (nonlinear_arith)
            requires
                0 <= i < w * h * 3,
                0 <= w,
                0 <= h,
        ;
        // i is byte k of the pixel at (orow, ocol) of the w-wide final image
        lemma_index_px(w, h, i);
        let orow = (i / 3) / w;
        let ocol = (i / 3) % w;
        let k = i % 3;
        lemma_px_split(w, orow, ocol, k);
        assert(rot90_src(h, w, i) == px(h, w - 1 - ocol, orow, k));
        law_rotate_90_moves_pixels(pixels, w, h, h - 1 - orow, w - 1 - ocol, k);
        assert(rot180_src(w * h, i) == px(w, h - 1 - orow, w - 1 - ocol, k)) by (nonlinear_arith)
            requires
                i / 3 == orow * w + ocol,
                k == i % 3,
        ;
    }
    assert(b =~= c);
}

/// A turn by `r1` degrees and one by `r2` degrees do the same when the two
/// angles differ by a whole number of full turns (-90 is 270).
pub proof fn law_rotation_angle_counts_modulo_360(pixels: Seq<u8>, w: u32, h: u32, r1: i32, r2: i32)
    requires
        (r1 as int - r2 as int) % 360 == 0,
    ensures
        rotated(pixels, w, h, r1) == rotated(pixels, w, h, r2),
{
    let a = r1 as int;
    let b = r2 as int;
    lemma_fundamental_div_mod(a, 360);
    lemma_fundamental_div_mod(b, 360);
    lemma_fundamental_div_mod(a - b, 360);
    lemma_mod_bound(a, 360);
    lemma_mod_bound(b, 360);
    assert(a % 360 == b % 360) by (nonlinear_arith)
        requires
            a == 360 * (a / 360) + a % 360,
            b == 360 * (b / 360) + b % 360,
            a - b == 360 * ((a - b) / 360),
            0 <= a % 360 < 360,
            0 <= b % 360 < 360,
    ;
}

/// Turning keeps the number of bytes and the number of pixels.
pub proof fn law_rotation_keeps_size(pixels: Seq<u8>, w: u32, h: u32, rotation: i32)
    ensures
        rotated(pixels, w, h, rotation).0.len() == pixels.len(),
        rotated(pixels, w, h, rotation).1 * rotated(pixels, w, h, rotation).2 == w * h,
{
    assert(h * w == w * h) by (nonlinear_arith);
}

/// Turned by a rotation of 270 degrees (or -90), a `w`x`h` image becomes
/// `h` wide and `w` tall, and its pixel (row, col) lands at
/// (w-1-col, row): its top row becomes its left column, read bottom-up.
pub proof fn law_turn_270_moves_pixels(
    pixels: Seq<u8>,
    w: u32,
    h: u32,
    rotation: i32,
    row: int,
    col: int,
    k: int,
)
    requires
        turn(rotation) == 270,
        w * h * 3 <= pixels.len(),
        0 <= row < h,
        0 <= col < w,
        0 <= k < 3,
    ensures
        rotated(pixels, w, h, rotation).1 == h,
        rotated(pixels, w, h, rotation).2 == w,
        rotated(pixels, w, h, rotation).0[px(h as int, w - 1 - col, row, k)] == pixels[px(
            w as int,
            row,
            col,
            k,
        )],
{
    law_rotate_270_moves_pixels(pixels, w as int, h as int, row, col, k);
}

/// Turned by a rotation of 90 degrees (or -270), a `w`x`h` image becomes
/// `h` wide and `w` tall, and its pixel (row, col) lands at (col, h-1-row):
/// its top row becomes its right column, read top-down.
pub proof fn law_turn_90_moves_pixels(
    pixels: Seq<u8>,
    w: u32,
    h: u32,
    rotation: i32,
    row: int,
    col: int,
    k: int,
)
    requires
        turn(rotation) == 90,
        w * h * 3 <= pixels.len(),
        0 <= row < h,
        0 <= col < w,
        0 <= k < 3,
    ensures
        rotated(pixels, w, h, rotation).1 == h,
        rotated(pixels, w, h, rotation).2 == w,
        rotated(pixels, w, h, rotation).0[px(h as int, col, h - 1 - row, k)] == pixels[px(
            w as int,
            row,
            col,
            k,
        )],
{
    law_rotate_90_moves_pixels(pixels, w as int, h as int, row, col, k);
}

/// Turned by a rotation of 180 degrees, a `w`x`h` image keeps its size and
/// its pixel (row, col) lands at (h-1-row, w-1-col): it is upside down.
pub proof fn law_turn_180_moves_pixels(
    pixels: Seq<u8>,
    w: u32,
    h: u32,
    rotation: i32,
    row: int,
    col: int,
    k: int,
)
    requires
        turn(rotation) == 180,
        pixels.len() == w * h * 3,
        0 <= row < h,
        0 <= col < w,
        0 <= k < 3,
    ensures
        rotated(pixels, w, h, rotation).1 == w,
        rotated(pixels, w, h, rotation).2 == h,
        rotated(pixels, w, h, rotation).0[px(w as int, h - 1 - row, w - 1 - col, k)] == pixels[px(
            w as int,
            row,
            col,
            k,
        )],
{
    let wi = w as int;
    let hi = h as int;
    let i = px(wi, hi - 1 - row, wi - 1 - col, k);
    lemma_px_in_image(wi, hi, hi - 1 - row, wi - 1 - col, k);
    lemma_px_split(wi, hi - 1 - row, wi - 1 - col, k);
    let n = (pixels.len() / 3) as int;
    assert(n == wi * hi) by (nonlinear_arith)
        requires
            pixels.len() == wi * hi * 3,
            n == pixels.len() / 3,
    ;
    assert(n - 1 - ((hi - 1 - row) * wi + (wi - 1 - col)) == row * wi + col) by (nonlinear_arith)
        requires
            n == wi * hi,
    ;
    assert(rot180_src(n, i) == px(wi, row, col, k));
}

/// Turning an image by 270 degrees and then the result by 90 degrees, or
/// the other way round, gives back the image and its size.
pub proof fn law_turns_of_270_and_90_cancel(pixels: Seq<u8>, w: u32, h: u32)
    requires
        pixels.len() == w * h * 3,
    ensures
        ({
            let (once, w1, h1) = rotated(pixels, w, h, 270);
            rotated(once, w1, h1, 90) == (pixels, w, h)
        }),
        ({
            let (once, w1, h1) = rotated(pixels, w, h, 90);
            rotated(once, w1, h1, 270) == (pixels, w, h)
        }),
{
    assert(turn(270) == 270);
    assert(turn(90) == 90);
    law_rotate_90_undoes_270(pixels, w as int, h as int);
    law_rotate_270_undoes_90(pixels, w as int, h as int);
}

/// The packed bytes of `rows` rows of `row_bytes` bytes, row `r` starting
/// at `r * stride` in `data`.
pub open spec fn packed_rows(data: Seq<u8>, stride: int, row_bytes: int, rows: int) -> Seq<u8>
    decreases rows,
{
    if rows <= 0 {
        Seq::empty()
    } else {
        packed_rows(data, stride, row_bytes, rows - 1) + data.subrange(
            (rows - 1) * stride,
            (rows - 1) * stride + row_bytes,
        )
    }
}

/// Copy the pixel bytes of each row out of a frame plane whose rows are
/// `stride` bytes apart (the stride may be wider than the pixel row).
pub fn pack_rows(data: &[u8], stride: usize, row_bytes: usize, rows: usize) -> (out: Vec<u8>)
    requires
        rows > 0 ==> (rows - 1) * stride + row_bytes <= data@.len(),
    ensures
        out@ == packed_rows(data@, stride as int, row_bytes as int, rows as int),
{
    let mut out: Vec<u8> = Vec::new();
    let mut row: usize = 0;
    while row < rows
        invariant
            row <= rows,
            rows > 0 ==> (rows - 1) * stride + row_bytes <= data@.len(),
            out@ == packed_rows(data@, stride as int, row_bytes as int, row as int),
        decreases rows - row,
    {
        proof {
            assert(row * stride <= (rows - 1) * stride) by (nonlinear_arith)
                requires
                    row < rows,
            ;
            assert(data@.len() == data.len());
        }
        let start = row * stride;
        let ghost before = out@;
        out.extend_from_slice(vstd::slice::slice_subrange(data, start, start + row_bytes));
        assert(out@ =~= before + data@.subrange(start as int, start + row_bytes));
        row += 1;
    }
    out
}

/// The error type of `jpeg_encoder`, carried through unread.
#[verifier::external_type_specification]
#[verifier::external_body]
pub struct ExEncodingError(jpeg_encoder::EncodingError);

/// The JPEG that `jpeg_encoder` makes of an RGB image of `width`×`height`
/// pixels at `quality`.
pub uninterp spec fn jpeg_rgb_encoding(pixels: Seq<u8>, width: u16, height: u16, quality: u8) -> Seq<u8>;

/// Calls `jpeg_encoder::Encoder::encode` on a fresh `Vec` with colour type
/// RGB, for pixel data at least `width * height * 3` bytes long. It fails
/// exactly when the image is empty (zero width or height); otherwise the
/// bytes written are the named result `jpeg_rgb_encoding`, which starts with
/// the SOI marker `FF D8`. Nothing more of the encoding is stated.
#[verifier::external_body]
fn encode_jpeg_rgb(pixels: &[u8], width: u16, height: u16, quality: u8) -> (r: Result<
    Vec<u8>,
    jpeg_encoder::EncodingError,
>)
    requires
        1 <= quality <= 100,
        width * height * 3 <= pixels@.len(),
    ensures
        r is Ok <==> (width > 0 && height > 0),
        r matches Ok(b) ==> b@ == jpeg_rgb_encoding(pixels@, width, height, quality) && b@.len() >= 2
            && b@[0] == 0xff && b@[1] == 0xd8,
{
    let mut buf = Vec::new();
    match jpeg_encoder::Encoder::new(&mut buf, quality).encode(
        pixels,
        width,
        height,
        jpeg_encoder::ColorType::Rgb,
    ) {
        Ok(()) => Ok(buf),
        Err(e) => Err(e),
    }
}

/// The JPEG quality of thumbnails.
pub const THUMBNAIL_QUALITY: u8 = 85;

/// Why a frame could not be encoded.
#[derive(Debug)]
pub enum ThumbnailError {
    /// The pixel data is shorter than the image it should hold.
    BadImageData { length: usize, required: u64 },
    /// The image has no pixels.
    ZeroImageDimensions { width: u16, height: u16 },
}

/// What `encode_thumbnail` yields for the turned pixels `p` of size
/// `w`×`h` (given to the encoder in 16 bits).
pub open spec fn thumbnail_result(p: Seq<u8>, w: u32, h: u32, r: Result<Vec<u8>, ThumbnailError>) -> bool {
    let ew = w as u16;
    let eh = h as u16;
    match r {
        Ok(b) => ew > 0 && eh > 0 && ew * eh * 3 <= p.len() && b@ == jpeg_rgb_encoding(
            p,
            ew,
            eh,
            THUMBNAIL_QUALITY,
        ),
        Err(ThumbnailError::BadImageData { length, required }) => p.len() < ew * eh * 3 && length
            == p.len() && required == ew * eh * 3,
        Err(ThumbnailError::ZeroImageDimensions { width, height }) => ew * eh * 3 <= p.len() && (ew
            == 0 || eh == 0) && width == ew && height == eh,
    }
}

/// Turn a decoded `w`×`h` RGB frame upright by `rotation` degrees and
/// encode it as a JPEG at quality 85.
pub fn encode_thumbnail(pixels: Vec<u8>, w: u32, h: u32, rotation: i32) -> (r: Result<
    Vec<u8>,
    ThumbnailError,
>)
    requires
        turn(rotation) == 90 || turn(rotation) == 270 ==> w * h * 3 <= pixels@.len(),
    ensures
        ({
            let (p, tw, th) = rotated(pixels@, w, h, rotation);
            thumbnail_result(p, tw, th, r)
        }),
{
    let (rotated_pixels, enc_w, enc_h) = apply_rotation(pixels, w, h, rotation);
    let ew = #[verifier::truncate] (enc_w as u16);
    let eh = #[verifier::truncate] (enc_h as u16);
    assert((ew as u64) * (eh as u64) <= 0xffff * 0xffff) by (nonlinear_arith)
        requires
            ew <= 0xffff,
            eh <= 0xffff,
    ;
    let required = (ew as u64) * (eh as u64) * 3;
    let length = rotated_pixels.len();
    if (length as u64) < required {
        return Err(ThumbnailError::BadImageData { length, required });
    }
    match encode_jpeg_rgb(rotated_pixels.as_slice(), ew, eh, THUMBNAIL_QUALITY) {
        Ok(bytes) => Ok(bytes),
        Err(_) => Err(ThumbnailError::ZeroImageDimensions { width: ew, height: eh }),
    }
}

/// Where to seek, in milliseconds: the requested time, else a tenth of the
/// duration (to skip black intros), rounded toward zero.
pub fn seek_target_ms(seek_ms: Option<u64>, duration_ms: i64) -> (r: i64)
    ensures
        r == match seek_ms {
            Some(ms) => ms as i64,
            None => if duration_ms >= 0 {
                (duration_ms / 10) as i64
            } else {
                -((-duration_ms) / 10) as i64
            },
        },
{
    match seek_ms {
        Some(ms) => ms as i64,
        None => duration_ms / 10,
    }
}

/// Which side of a decoded frame to scale to the maximum thumbnail width.
#[derive(Clone, Copy, Debug, PartialEq, Eq, Structural)]
pub enum ScalePlan {
    /// The frame is empty or already narrow enough once turned: keep its size.
    Keep,
    /// Scale the frame's width to the maximum (it stays the width).
    Width,
    /// Scale the frame's height to the maximum (a quarter turn makes it the width).
    Height,
}

/// Whether `rotation` is a quarter turn, which swaps width and height.
pub open spec fn quarter_turn(rotation: i32) -> bool {
    turn(rotation) == 90 || turn(rotation) == 270
}

/// The width that a `w`×`h` frame shows once turned by `rotation`.
pub open spec fn shown_width(w: u32, h: u32, rotation: i32) -> u32 {
    if quarter_turn(rotation) {
        h
    } else {
        w
    }
}

/// Which side to scale so that the thumbnail, once turned upright, is at
/// most `max_w` wide: the side that becomes its width, and only when that
/// side is wider than `max_w` (an empty frame is kept as it is).
pub fn scale_plan(src_w: u32, src_h: u32, max_w: u32, rotation: i32) -> (r: ScalePlan)
    ensures
        r == (if src_w == 0 || src_h == 0 || shown_width(src_w, src_h, rotation) <= max_w {
            ScalePlan::Keep
        } else if quarter_turn(rotation) {
            ScalePlan::Height
        } else {
            ScalePlan::Width
        }),
{
    let angle = match rotation.checked_rem_euclid(360) {
        Some(a) => a,
        None => 0,
    };
    assert(angle == turn(rotation));
    let quarter = angle == 90 || angle == 270;
    let shown = if quarter {
        src_h
    } else {
        src_w
    };
    if src_w == 0 || src_h == 0 || shown <= max_w {
        ScalePlan::Keep
    } else if quarter {
        ScalePlan::Height
    } else {
        ScalePlan::Width
    }
}

/// The size `(out_w, out_h)` that a frame is scaled to follows `plan`: kept,
/// or the planned side set to `max_w` (the other side is free).
pub open spec fn follows_plan(plan: ScalePlan, src_w: u32, src_h: u32, max_w: u32, out_w: u32, out_h: u32) -> bool {
    match plan {
        ScalePlan::Keep => out_w == src_w && out_h == src_h,
        ScalePlan::Width => out_w == max_w,
        ScalePlan::Height => out_h == max_w,
    }
}

/// A non-empty frame scaled as `scale_plan` decides and then turned upright
/// is at most `max_w` pixels wide.
pub proof fn law_upright_thumbnail_is_at_most_max_wide(
    pixels: Seq<u8>,
    src_w: u32,
    src_h: u32,
    max_w: u32,
    rotation: i32,
    out_w: u32,
    out_h: u32,
)
    requires
        src_w > 0,
        src_h > 0,
        follows_plan(
            if shown_width(src_w, src_h, rotation) <= max_w {
                ScalePlan::Keep
            } else if quarter_turn(rotation) {
                ScalePlan::Height
            } else {
                ScalePlan::Width
            },
            src_w,
            src_h,
            max_w,
            out_w,
            out_h,
        ),
    ensures
        rotated(pixels, out_w, out_h, rotation).1 <= max_w,
{
}

} // verus!
