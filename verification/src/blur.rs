//! The privacy blur: a separable box blur over the captured pixel buffer.
//!
//! Both passes average each of the four interleaved channels over an
//! inclusive window clamped to the image edge, with truncating unsigned
//! division. The contract pins the output bit for bit.

use vstd::prelude::*;

use vstd::arithmetic::div_mod::{lemma_div_is_ordered, lemma_div_multiples_vanish,
    lemma_fundamental_div_mod_converse};

verus! {

/// The first sample of the averaging window around position `i`.
pub open spec fn spec_win_lo(i: int, radius: int) -> int {
    if i >= radius {
        i - radius
    } else {
        0
    }
}

/// The last sample of the window around `i`, clamped to an axis of `n`
/// positions.
pub open spec fn spec_win_hi(i: int, radius: int, n: int) -> int {
    if i + radius <= n - 1 {
        i + radius
    } else {
        n - 1
    }
}

/// The sum of the bytes at `base + stride * k` for `k` in `[lo, hi]`.
pub open spec fn spec_strided_sum(pix: Seq<u8>, base: int, stride: int, lo: int, hi: int) -> int
    decreases hi + 1 - lo,
{
    if lo > hi {
        0
    } else {
        pix[base + stride * lo] + spec_strided_sum(pix, base, stride, lo + 1, hi)
    }
}

/// The row of the pixel holding flat index `idx`.
pub open spec fn spec_px_row(width: int, idx: int) -> int {
    idx / (4 * width)
}

/// The column of the pixel holding flat index `idx`.
pub open spec fn spec_px_col(width: int, idx: int) -> int {
    (idx % (4 * width)) / 4
}

/// The channel of flat index `idx`.
pub open spec fn spec_px_ch(idx: int) -> int {
    idx % 4
}

/// The byte at `idx` after the horizontal pass: the channel averaged over
/// the clamped window around the pixel's column.
pub open spec fn spec_hblur_at(pix: Seq<u8>, width: int, radius: int, idx: int) -> u8 {
    let y = spec_px_row(width, idx);
    let x = spec_px_col(width, idx);
    let ch = spec_px_ch(idx);
    let lo = spec_win_lo(x, radius);
    let hi = spec_win_hi(x, radius, width);
    (spec_strided_sum(pix, y * width * 4 + ch, 4, lo, hi) / (hi - lo + 1)) as u8
}

/// The horizontal pass over the whole buffer.
pub open spec fn spec_hblur(pix: Seq<u8>, width: int, radius: int) -> Seq<u8> {
    Seq::new(pix.len(), |idx: int| spec_hblur_at(pix, width, radius, idx))
}

/// The byte at `idx` after the vertical pass: the channel averaged over the
/// clamped window around the pixel's row.
pub open spec fn spec_vblur_at(pix: Seq<u8>, width: int, height: int, radius: int, idx: int) -> u8 {
    let y = spec_px_row(width, idx);
    let x = spec_px_col(width, idx);
    let ch = spec_px_ch(idx);
    let lo = spec_win_lo(y, radius);
    let hi = spec_win_hi(y, radius, height);
    (spec_strided_sum(pix, x * 4 + ch, width * 4, lo, hi) / (hi - lo + 1)) as u8
}

/// The vertical pass over the whole buffer.
pub open spec fn spec_vblur(pix: Seq<u8>, width: int, height: int, radius: int) -> Seq<u8> {
    Seq::new(pix.len(), |idx: int| spec_vblur_at(pix, width, height, radius, idx))
}

/// The whole blur: the horizontal pass into a scratch buffer, then the
/// vertical pass over the scratch result; a no-op for zero radius or a
/// degenerate dimension.
pub open spec fn spec_blur(pix: Seq<u8>, width: int, height: int, radius: int) -> Seq<u8> {
    if radius == 0 || width == 0 || height == 0 {
        pix
    } else {
        spec_vblur(spec_hblur(pix, width, radius), width, height, radius)
    }
}

proof fn lemma_strided_sum_extend(pix: Seq<u8>, base: int, stride: int, lo: int, hi: int)
    requires
        lo <= hi + 1,
    ensures
        spec_strided_sum(pix, base, stride, lo, hi + 1) == spec_strided_sum(
            pix,
            base,
            stride,
            lo,
            hi,
        ) + pix[base + stride * (hi + 1)],
    decreases hi + 2 - lo,
{
    if lo > hi {
        assert(spec_strided_sum(pix, base, stride, lo, hi) == 0);
        assert(spec_strided_sum(pix, base, stride, lo + 1, hi + 1) == 0);
    } else {
        lemma_strided_sum_extend(pix, base, stride, lo + 1, hi);
    }
}

proof fn lemma_strided_sum_bounds(pix: Seq<u8>, base: int, stride: int, lo: int, hi: int)
    requires
        lo <= hi + 1,
    ensures
        0 <= spec_strided_sum(pix, base, stride, lo, hi),
        spec_strided_sum(pix, base, stride, lo, hi) <= 255 * (hi - lo + 1),
    decreases hi + 1 - lo,
{
    if lo <= hi {
        lemma_strided_sum_bounds(pix, base, stride, lo + 1, hi);
    }
}

proof fn lemma_avg_bound(sum: int, count: int)
    requires
        0 < count,
        0 <= sum <= 255 * count,
    ensures
        0 <= sum / count <= 255,
{
    lemma_div_is_ordered(sum, 255 * count, count);
    assert(255 * count == count * 255);
    lemma_div_multiples_vanish(255, count);
    assert(sum / count >= 0) by (nonlinear_arith)
        requires
            0 <= sum,
            0 < count,
    ;
}

/// The flat index of channel `ch` of the pixel at column `x`, row `y`.
proof fn lemma_flat_index(width: int, y: int, x: int, ch: int)
    requires
        width >= 1,
        0 <= y,
        0 <= x < width,
        0 <= ch < 4,
    ensures
        spec_px_row(width, (y * width + x) * 4 + ch) == y,
        spec_px_col(width, (y * width + x) * 4 + ch) == x,
        spec_px_ch((y * width + x) * 4 + ch) == ch,
{
    let idx = (y * width + x) * 4 + ch;
    assert(idx == y * (4 * width) + (x * 4 + ch)) by (nonlinear_arith)
        requires
            idx == (y * width + x) * 4 + ch,
    ;
    assert(0 <= x * 4 + ch < 4 * width) by (nonlinear_arith)
        requires
            0 <= x < width,
            0 <= ch < 4,
    ;
    lemma_fundamental_div_mod_converse(idx, 4 * width, y, x * 4 + ch);
    lemma_fundamental_div_mod_converse(x * 4 + ch, 4, x, ch);
    lemma_fundamental_div_mod_converse(idx, 4, y * width + x, ch);
}

/// A uniform image: every pixel carries the same color, so a byte depends
/// only on its channel.
pub open spec fn spec_is_uniform(pix: Seq<u8>) -> bool {
    forall|i: int| 0 <= i < pix.len() ==> #[trigger] pix[i] == pix[i % 4]
}

/// A zero radius leaves the buffer untouched, whatever the dimensions.
pub proof fn lemma_blur_zero_radius(pix: Seq<u8>, width: int, height: int)
    ensures
        spec_blur(pix, width, height, 0) == pix,
{
}

proof fn lemma_strided_sum_constant(pix: Seq<u8>, base: int, stride: int, lo: int, hi: int, v: u8)
    requires
        lo <= hi + 1,
        forall|k: int| lo <= k <= hi ==> #[trigger] pix[base + stride * k] == v,
    ensures
        spec_strided_sum(pix, base, stride, lo, hi) == (v as int) * (hi + 1 - lo),
    decreases hi + 1 - lo,
{
    if lo > hi {
        assert((v as int) * (hi + 1 - lo) == 0) by (nonlinear_arith)
            requires
                lo == hi + 1,
        ;
    } else {
        lemma_strided_sum_constant(pix, base, stride, lo + 1, hi, v);
        assert(pix[base + stride * lo] == v);
        assert(spec_strided_sum(pix, base, stride, lo, hi) == pix[base + stride * lo]
            + spec_strided_sum(pix, base, stride, lo + 1, hi));
        assert((v as int) * (hi + 1 - lo) == v + (v as int) * (hi - lo)) by (nonlinear_arith);
    }
}

/// The coordinates of a flat index are in range.
proof fn lemma_coords_in_range(width: int, height: int, len: int, idx: int)
    requires
        width >= 1,
        height >= 1,
        len == width * height * 4,
        0 <= idx < len,
    ensures
        0 <= spec_px_row(width, idx) < height,
        0 <= spec_px_col(width, idx) < width,
        0 <= spec_px_ch(idx) < 4,
        idx == (spec_px_row(width, idx) * width + spec_px_col(width, idx)) * 4 + spec_px_ch(idx),
{
    let w4 = 4 * width;
    vstd::arithmetic::div_mod::lemma_fundamental_div_mod(idx, w4);
    vstd::arithmetic::div_mod::lemma_mod_bound(idx, w4);
    let q = idx / w4;
    let r = idx % w4;
    assert(idx == w4 * q + r);
    assert(0 <= r < w4);
    assert(q >= 0) by (nonlinear_arith)
        requires
            idx >= 0,
            w4 > 0,
            idx == w4 * q + r,
            0 <= r < w4,
    ;
    assert(height * w4 == len) by (nonlinear_arith)
        requires
            len == width * height * 4,
            w4 == 4 * width,
    ;
    if q >= height {
        assert(w4 * q >= w4 * height) by (nonlinear_arith)
            requires
                q >= height,
                w4 > 0,
        ;
        assert(false);
    }
    vstd::arithmetic::div_mod::lemma_fundamental_div_mod(r, 4);
    vstd::arithmetic::div_mod::lemma_mod_bound(r, 4);
    let x = r / 4;
    let c = r % 4;
    assert(r == 4 * x + c);
    assert(x >= 0) by (nonlinear_arith)
        requires
            r >= 0,
            r == 4 * x + c,
            0 <= c < 4,
    ;
    if x >= width {
        assert(4 * x >= 4 * width) by (nonlinear_arith)
            requires
                x >= width,
        ;
        assert(false);
    }
    assert(idx == (q * width + x) * 4 + c) by (nonlinear_arith)
        requires
            idx == w4 * q + r,
            r == 4 * x + c,
            w4 == 4 * width,
    ;
    lemma_fundamental_div_mod_converse(idx, 4, q * width + x, c);
    assert(spec_px_ch(idx) == c);
}

proof fn lemma_hblur_uniform(pix: Seq<u8>, width: int, height: int, radius: int)
    requires
        width >= 1,
        height >= 1,
        radius >= 1,
        pix.len() == width * height * 4,
        spec_is_uniform(pix),
    ensures
        spec_hblur(pix, width, radius) == pix,
{
    let len = pix.len() as int;
    assert forall|idx: int| 0 <= idx < len implies spec_hblur(pix, width, radius)[idx]
        == pix[idx] by {
        lemma_coords_in_range(width, height, len, idx);
        let y = spec_px_row(width, idx);
        let x = spec_px_col(width, idx);
        let ch = spec_px_ch(idx);
        let lo = spec_win_lo(x, radius);
        let hi = spec_win_hi(x, radius, width);
        let base = y * width * 4 + ch;
        let v = pix[ch];
        assert(0 <= lo <= x && x <= hi < width);
        assert forall|k: int| lo <= k <= hi implies #[trigger] pix[base + 4 * k] == v by {
            lemma_flat_index(width, y, k, ch);
            assert(base + 4 * k == (y * width + k) * 4 + ch) by (nonlinear_arith)
                requires
                    base == y * width * 4 + ch,
            ;
            assert(0 <= (y * width + k) * 4 + ch < len) by (nonlinear_arith)
                requires
                    0 <= y < height,
                    0 <= k < width,
                    0 <= ch < 4,
                    len == width * height * 4,
            ;
            assert(spec_px_ch((y * width + k) * 4 + ch) == ch);
            assert(pix[base + 4 * k] == pix[((y * width + k) * 4 + ch) % 4]);
        }
        lemma_strided_sum_constant(pix, base, 4, lo, hi, v);
        let count = hi + 1 - lo;
        assert((v as int) * count == count * (v as int));
        lemma_div_multiples_vanish(v as int, count);
        assert(spec_strided_sum(pix, base, 4, lo, hi) / count == v as int);
        assert(pix[idx] == pix[idx % 4]);
        assert(idx % 4 == ch);
    }
    assert(spec_hblur(pix, width, radius) =~= pix);
}

proof fn lemma_vblur_uniform(pix: Seq<u8>, width: int, height: int, radius: int)
    requires
        width >= 1,
        height >= 1,
        radius >= 1,
        pix.len() == width * height * 4,
        spec_is_uniform(pix),
    ensures
        spec_vblur(pix, width, height, radius) == pix,
{
    let len = pix.len() as int;
    assert forall|idx: int| 0 <= idx < len implies spec_vblur(pix, width, height, radius)[idx]
        == pix[idx] by {
        lemma_coords_in_range(width, height, len, idx);
        let y = spec_px_row(width, idx);
        let x = spec_px_col(width, idx);
        let ch = spec_px_ch(idx);
        let lo = spec_win_lo(y, radius);
        let hi = spec_win_hi(y, radius, height);
        let base = x * 4 + ch;
        let stride = width * 4;
        let v = pix[ch];
        assert(0 <= lo <= y && y <= hi < height);
        assert forall|k: int| lo <= k <= hi implies #[trigger] pix[base + stride * k] == v by {
            lemma_flat_index(width, k, x, ch);
            assert(base + stride * k == (k * width + x) * 4 + ch) by (nonlinear_arith)
                requires
                    base == x * 4 + ch,
                    stride == width * 4,
            ;
            assert(0 <= (k * width + x) * 4 + ch < len) by (nonlinear_arith)
                requires
                    0 <= k < height,
                    0 <= x < width,
                    0 <= ch < 4,
                    len == width * height * 4,
            ;
            assert(spec_px_ch((k * width + x) * 4 + ch) == ch);
            assert(pix[base + stride * k] == pix[((k * width + x) * 4 + ch) % 4]);
        }
        lemma_strided_sum_constant(pix, base, stride, lo, hi, v);
        let count = hi + 1 - lo;
        assert((v as int) * count == count * (v as int));
        lemma_div_multiples_vanish(v as int, count);
        assert(spec_strided_sum(pix, base, stride, lo, hi) / count == v as int);
        assert(pix[idx] == pix[idx % 4]);
        assert(idx % 4 == ch);
    }
    assert(spec_vblur(pix, width, height, radius) =~= pix);
}

/// A uniform image is a fixed point of the blur at any radius: averaging a
/// constant changes nothing.
pub proof fn lemma_blur_uniform_fixed_point(pix: Seq<u8>, width: int, height: int, radius: int)
    requires
        width >= 0,
        height >= 0,
        radius >= 0,
        pix.len() == width * height * 4,
        spec_is_uniform(pix),
    ensures
        spec_blur(pix, width, height, radius) == pix,
{
    if radius == 0 || width == 0 || height == 0 {
    } else {
        lemma_hblur_uniform(pix, width, height, radius);
        lemma_vblur_uniform(pix, width, height, radius);
    }
}

/// Blurring already-uniform content twice is still the identity: a uniform
/// image is a fixed point under repetition.
pub proof fn lemma_blur_uniform_repeated(pix: Seq<u8>, width: int, height: int, radius: int)
    requires
        width >= 0,
        height >= 0,
        radius >= 0,
        pix.len() == width * height * 4,
        spec_is_uniform(pix),
    ensures
        spec_blur(spec_blur(pix, width, height, radius), width, height, radius) == pix,
{
    lemma_blur_uniform_fixed_point(pix, width, height, radius);
}

/// On a single-pixel-wide image the horizontal pass is the identity: the
/// clamped window holds just the pixel itself.
pub proof fn lemma_hblur_width_one(pix: Seq<u8>, height: int, radius: int)
    requires
        height >= 1,
        radius >= 1,
        pix.len() == height * 4,
    ensures
        spec_hblur(pix, 1, radius) == pix,
{
    let len = pix.len() as int;
    assert forall|idx: int| 0 <= idx < len implies spec_hblur(pix, 1, radius)[idx] == pix[idx] by {
        lemma_coords_in_range(1, height, len, idx);
        let y = spec_px_row(1, idx);
        let x = spec_px_col(1, idx);
        let ch = spec_px_ch(idx);
        assert(x == 0);
        assert(spec_win_lo(0, radius) == 0);
        assert(spec_win_hi(0, radius, 1) == 0);
        let base = y * 1 * 4 + ch;
        assert(spec_strided_sum(pix, base, 4, 0, 0) == pix[base] + spec_strided_sum(
            pix,
            base,
            4,
            1,
            0,
        ));
        assert(base == idx);
        assert(pix[idx] / 1 == pix[idx] as int);
    }
    assert(spec_hblur(pix, 1, radius) =~= pix);
}

/// On a single-pixel-wide image the whole blur is just the vertical pass.
pub proof fn lemma_blur_width_one(pix: Seq<u8>, height: int, radius: int)
    requires
        height >= 1,
        radius >= 1,
        pix.len() == height * 4,
    ensures
        spec_blur(pix, 1, height, radius) == spec_vblur(pix, 1, height, radius),
{
    lemma_hblur_width_one(pix, height, radius);
}

/// Blurs the buffer in place: a horizontal then a vertical box-average
/// pass, each channel averaged over the inclusive window clamped to the
/// edge, with truncating unsigned division. A no-op for zero radius or a
/// degenerate dimension.
#[verifier::loop_isolation(false)]
#[verifier::rlimit(100)]
pub fn blur_buffer(pixels: &mut Vec<u8>, width: usize, height: usize, radius: usize)
    requires
        old(pixels)@.len() == width * height * 4,
        width <= 0x100_0000,
        height <= 0x100_0000,
        radius <= 0x100_0000,
    ensures
        final(pixels)@ == spec_blur(old(pixels)@, width as int, height as int, radius as int),
{
    if radius == 0 || width == 0 || height == 0 {
        return ;
    }
    let ghost src = pixels@;
    let len = pixels.len();
    let ghost hb = spec_hblur(src, width as int, radius as int);

    let mut buffer: Vec<u8> = Vec::new();
    while buffer.len() < len
        invariant
            buffer@.len() <= len,
        decreases len - buffer@.len(),
    {
        buffer.push(0);
    }

    let mut y: usize = 0;
    while y < height
        invariant
            1 <= width <= 0x100_0000,
            1 <= height <= 0x100_0000,
            1 <= radius <= 0x100_0000,
            len == width * height * 4,
            y <= height,
            pixels@ == src,
            src.len() == len,
            buffer@.len() == len,
            forall|idx: int|
                0 <= idx < y * width * 4 ==> buffer@[idx] == spec_hblur_at(
                    src,
                    width as int,
                    radius as int,
                    idx,
                ),
        decreases height - y,
    {
        proof {
            assert((y as int) * (width as int) * 4 + (width as int) * 4 <= len as int)
                by (nonlinear_arith)
                requires
                    y < height,
                    len == width * height * 4,
            ;
        }
        let row_offset = y * width * 4;
        assert(row_offset + width * 4 <= len);
        let mut x: usize = 0;
        while x < width
            invariant
                1 <= width <= 0x100_0000,
                1 <= height <= 0x100_0000,
                1 <= radius <= 0x100_0000,
                len == width * height * 4,
                y < height,
                row_offset == y * width * 4,
                row_offset + width * 4 <= len,
                x <= width,
                pixels@ == src,
                src.len() == len,
                buffer@.len() == len,
                forall|idx: int|
                    0 <= idx < y * width * 4 + x * 4 ==> buffer@[idx] == spec_hblur_at(
                        src,
                        width as int,
                        radius as int,
                        idx,
                    ),
            decreases width - x,
        {
            let lo = if x >= radius {
                x - radius
            } else {
                0
            };
            let hi = if x + radius <= width - 1 {
                x + radius
            } else {
                width - 1
            };
            assert(lo == spec_win_lo(x as int, radius as int));
            assert(hi == spec_win_hi(x as int, radius as int, width as int));
            let count: u32 = (hi - lo + 1) as u32;
            assert(count == hi - lo + 1);
            assert(count <= width);

            let ghost base0 = (row_offset as int) + 0;
            let ghost base1 = (row_offset as int) + 1;
            let ghost base2 = (row_offset as int) + 2;
            let ghost base3 = (row_offset as int) + 3;

            let mut a0: u32 = 0;
            let mut a1: u32 = 0;
            let mut a2: u32 = 0;
            let mut a3: u32 = 0;
            let mut ix = lo;
            while ix <= hi
                invariant
                    lo <= ix <= hi + 1,
                    a0 == spec_strided_sum(src, base0, 4, lo as int, ix - 1),
                    a1 == spec_strided_sum(src, base1, 4, lo as int, ix - 1),
                    a2 == spec_strided_sum(src, base2, 4, lo as int, ix - 1),
                    a3 == spec_strided_sum(src, base3, 4, lo as int, ix - 1),
                decreases hi + 1 - ix,
            {
                proof {
                    assert((ix as int) * 4 + 4 <= (width as int) * 4) by (nonlinear_arith)
                        requires
                            ix < width,
                    ;
                }
                let idx = row_offset + ix * 4;
                assert(idx + 3 < len);
                proof {
                    lemma_strided_sum_bounds(src, base0, 4, lo as int, ix - 1);
                    lemma_strided_sum_bounds(src, base1, 4, lo as int, ix - 1);
                    lemma_strided_sum_bounds(src, base2, 4, lo as int, ix - 1);
                    lemma_strided_sum_bounds(src, base3, 4, lo as int, ix - 1);
                    assert(255 * (ix - lo) <= 255 * 0x100_0000) by (nonlinear_arith)
                        requires
                            ix - lo <= 0x100_0000,
                    ;
                    lemma_strided_sum_extend(src, base0, 4, lo as int, ix - 1);
                    lemma_strided_sum_extend(src, base1, 4, lo as int, ix - 1);
                    lemma_strided_sum_extend(src, base2, 4, lo as int, ix - 1);
                    lemma_strided_sum_extend(src, base3, 4, lo as int, ix - 1);
                    assert(base0 + 4 * (ix - 1 + 1) == idx + 0);
                    assert(base1 + 4 * (ix - 1 + 1) == idx + 1);
                    assert(base2 + 4 * (ix - 1 + 1) == idx + 2);
                    assert(base3 + 4 * (ix - 1 + 1) == idx + 3);
                }
                a0 = a0 + (pixels[idx] as u32);
                a1 = a1 + (pixels[idx + 1] as u32);
                a2 = a2 + (pixels[idx + 2] as u32);
                a3 = a3 + (pixels[idx + 3] as u32);
                ix = ix + 1;
            }

            proof {
                lemma_strided_sum_bounds(src, base0, 4, lo as int, hi as int);
                lemma_strided_sum_bounds(src, base1, 4, lo as int, hi as int);
                lemma_strided_sum_bounds(src, base2, 4, lo as int, hi as int);
                lemma_strided_sum_bounds(src, base3, 4, lo as int, hi as int);
                lemma_avg_bound(a0 as int, count as int);
                lemma_avg_bound(a1 as int, count as int);
                lemma_avg_bound(a2 as int, count as int);
                lemma_avg_bound(a3 as int, count as int);
            }
            let v0: u8 = (a0 / count) as u8;
            let v1: u8 = (a1 / count) as u8;
            let v2: u8 = (a2 / count) as u8;
            let v3: u8 = (a3 / count) as u8;

            proof {
                assert((x as int) * 4 + 4 <= (width as int) * 4) by (nonlinear_arith)
                    requires
                        x < width,
                ;
            }
            let out = row_offset + x * 4;
            assert(out + 3 < len);
            buffer.set(out, v0);
            buffer.set(out + 1, v1);
            buffer.set(out + 2, v2);
            buffer.set(out + 3, v3);
            proof {
                assert(out == (y * width + x) * 4) by (nonlinear_arith)
                    requires
                        out == row_offset + x * 4,
                        row_offset == y * width * 4,
                ;
                lemma_flat_index(width as int, y as int, x as int, 0);
                lemma_flat_index(width as int, y as int, x as int, 1);
                lemma_flat_index(width as int, y as int, x as int, 2);
                lemma_flat_index(width as int, y as int, x as int, 3);
                assert(y * width * 4 + 0 == base0) by (nonlinear_arith)
                    requires
                        base0 == y * width * 4,
                ;
                assert(buffer@[out as int] == spec_hblur_at(src, width as int, radius as int, out as int));
                assert(buffer@[out + 1] == spec_hblur_at(src, width as int, radius as int, out + 1));
                assert(buffer@[out + 2] == spec_hblur_at(src, width as int, radius as int, out + 2));
                assert(buffer@[out + 3] == spec_hblur_at(src, width as int, radius as int, out + 3));
                assert(y * width * 4 + x * 4 + 4 == out + 4);
            }
            x = x + 1;
        }
        proof {
            assert(y * width * 4 + width * 4 == (y + 1) * width * 4) by (nonlinear_arith);
        }
        y = y + 1;
    }
    proof {
        assert(height * width * 4 == len) by (nonlinear_arith)
            requires
                len == width * height * 4,
        ;
        assert(buffer@ =~= hb);
    }

    let mut x2: usize = 0;
    while x2 < width
        invariant
            1 <= width <= 0x100_0000,
            1 <= height <= 0x100_0000,
            1 <= radius <= 0x100_0000,
            len == width * height * 4,
            x2 <= width,
            buffer@ == hb,
            hb.len() == len,
            pixels@.len() == len,
            forall|idx: int|
                0 <= idx < len && spec_px_col(width as int, idx) < x2 ==> pixels@[idx]
                    == spec_vblur_at(hb, width as int, height as int, radius as int, idx),
        decreases width - x2,
    {
        let mut y2: usize = 0;
        while y2 < height
            invariant
                1 <= width <= 0x100_0000,
                1 <= height <= 0x100_0000,
                1 <= radius <= 0x100_0000,
                len == width * height * 4,
                x2 < width,
                y2 <= height,
                buffer@ == hb,
                hb.len() == len,
                pixels@.len() == len,
                forall|idx: int|
                    0 <= idx < len && spec_px_col(width as int, idx) < x2 ==> pixels@[idx]
                        == spec_vblur_at(hb, width as int, height as int, radius as int, idx),
                forall|idx: int|
                    0 <= idx < len && spec_px_col(width as int, idx) == x2 && spec_px_row(
                        width as int,
                        idx,
                    ) < y2 ==> pixels@[idx] == spec_vblur_at(
                        hb,
                        width as int,
                        height as int,
                        radius as int,
                        idx,
                    ),
            decreases height - y2,
        {
            let lo = if y2 >= radius {
                y2 - radius
            } else {
                0
            };
            let hi = if y2 + radius <= height - 1 {
                y2 + radius
            } else {
                height - 1
            };
            assert(lo == spec_win_lo(y2 as int, radius as int));
            assert(hi == spec_win_hi(y2 as int, radius as int, height as int));
            let count: u32 = (hi - lo + 1) as u32;
            assert(count == hi - lo + 1);
            assert(count <= height);

            let ghost stride = (width * 4) as int;
            let ghost base0 = (x2 * 4) as int;
            let ghost base1 = (x2 * 4 + 1) as int;
            let ghost base2 = (x2 * 4 + 2) as int;
            let ghost base3 = (x2 * 4 + 3) as int;

            let mut a0: u32 = 0;
            let mut a1: u32 = 0;
            let mut a2: u32 = 0;
            let mut a3: u32 = 0;
            let mut iy = lo;
            while iy <= hi
                invariant
                    lo <= iy <= hi + 1,
                    buffer@ == hb,
                    a0 == spec_strided_sum(hb, base0, stride, lo as int, iy - 1),
                    a1 == spec_strided_sum(hb, base1, stride, lo as int, iy - 1),
                    a2 == spec_strided_sum(hb, base2, stride, lo as int, iy - 1),
                    a3 == spec_strided_sum(hb, base3, stride, lo as int, iy - 1),
                decreases hi + 1 - iy,
            {
                proof {
                    assert(((iy as int) * (width as int) + (x2 as int)) * 4 + 4 <= len as int)
                        by (nonlinear_arith)
                        requires
                            iy < height,
                            x2 < width,
                            len == width * height * 4,
                    ;
                }
                let idx = (iy * width + x2) * 4;
                assert(idx + 3 < len);
                proof {
                    lemma_strided_sum_bounds(hb, base0, stride, lo as int, iy - 1);
                    lemma_strided_sum_bounds(hb, base1, stride, lo as int, iy - 1);
                    lemma_strided_sum_bounds(hb, base2, stride, lo as int, iy - 1);
                    lemma_strided_sum_bounds(hb, base3, stride, lo as int, iy - 1);
                    assert(255 * (iy - lo) <= 255 * 0x100_0000) by (nonlinear_arith)
                        requires
                            iy - lo <= 0x100_0000,
                    ;
                    lemma_strided_sum_extend(hb, base0, stride, lo as int, iy - 1);
                    lemma_strided_sum_extend(hb, base1, stride, lo as int, iy - 1);
                    lemma_strided_sum_extend(hb, base2, stride, lo as int, iy - 1);
                    lemma_strided_sum_extend(hb, base3, stride, lo as int, iy - 1);
                    assert(base0 + stride * (iy - 1 + 1) == idx + 0) by (nonlinear_arith)
                        requires
                            base0 == x2 * 4,
                            stride == width * 4,
                            idx == (iy * width + x2) * 4,
                    ;
                    assert(base1 + stride * (iy - 1 + 1) == idx + 1) by (nonlinear_arith)
                        requires
                            base1 == x2 * 4 + 1,
                            stride == width * 4,
                            idx == (iy * width + x2) * 4,
                    ;
                    assert(base2 + stride * (iy - 1 + 1) == idx + 2) by (nonlinear_arith)
                        requires
                            base2 == x2 * 4 + 2,
                            stride == width * 4,
                            idx == (iy * width + x2) * 4,
                    ;
                    assert(base3 + stride * (iy - 1 + 1) == idx + 3) by (nonlinear_arith)
                        requires
                            base3 == x2 * 4 + 3,
                            stride == width * 4,
                            idx == (iy * width + x2) * 4,
                    ;
                }
                a0 = a0 + (buffer[idx] as u32);
                a1 = a1 + (buffer[idx + 1] as u32);
                a2 = a2 + (buffer[idx + 2] as u32);
                a3 = a3 + (buffer[idx + 3] as u32);
                iy = iy + 1;
            }

            proof {
                lemma_strided_sum_bounds(hb, base0, stride, lo as int, hi as int);
                lemma_strided_sum_bounds(hb, base1, stride, lo as int, hi as int);
                lemma_strided_sum_bounds(hb, base2, stride, lo as int, hi as int);
                lemma_strided_sum_bounds(hb, base3, stride, lo as int, hi as int);
                lemma_avg_bound(a0 as int, count as int);
                lemma_avg_bound(a1 as int, count as int);
                lemma_avg_bound(a2 as int, count as int);
                lemma_avg_bound(a3 as int, count as int);
            }
            let v0: u8 = (a0 / count) as u8;
            let v1: u8 = (a1 / count) as u8;
            let v2: u8 = (a2 / count) as u8;
            let v3: u8 = (a3 / count) as u8;

            proof {
                assert(((y2 as int) * (width as int) + (x2 as int)) * 4 + 4 <= len as int)
                    by (nonlinear_arith)
                    requires
                        y2 < height,
                        x2 < width,
                        len == width * height * 4,
                ;
            }
            let out = (y2 * width + x2) * 4;
            assert(out + 3 < len);
            let ghost pixels_before = pixels@;
            pixels.set(out, v0);
            pixels.set(out + 1, v1);
            pixels.set(out + 2, v2);
            pixels.set(out + 3, v3);
            proof {
                lemma_flat_index(width as int, y2 as int, x2 as int, 0);
                lemma_flat_index(width as int, y2 as int, x2 as int, 1);
                lemma_flat_index(width as int, y2 as int, x2 as int, 2);
                lemma_flat_index(width as int, y2 as int, x2 as int, 3);
                assert(pixels@[out as int] == spec_vblur_at(hb, width as int, height as int, radius as int, out as int));
                assert(pixels@[out + 1] == spec_vblur_at(hb, width as int, height as int, radius as int, out + 1));
                assert(pixels@[out + 2] == spec_vblur_at(hb, width as int, height as int, radius as int, out + 2));
                assert(pixels@[out + 3] == spec_vblur_at(hb, width as int, height as int, radius as int, out + 3));
                assert forall|idx: int|
                    0 <= idx < len && spec_px_col(width as int, idx) == x2 && spec_px_row(
                        width as int,
                        idx,
                    ) < y2 as int implies pixels@[idx] == spec_vblur_at(
                    hb,
                    width as int,
                    height as int,
                    radius as int,
                    idx,
                ) by {
                    if out <= idx <= out + 3 {
                        assert(idx == out || idx == out + 1 || idx == out + 2 || idx == out + 3);
                        assert(spec_px_row(width as int, idx) == y2 as int);
                    } else {
                        assert(pixels@[idx] == pixels_before[idx]);
                    }
                }
                assert forall|idx: int|
                    0 <= idx < len && spec_px_col(width as int, idx) == x2 && spec_px_row(
                        width as int,
                        idx,
                    ) == y2 as int implies out <= idx <= out + 3 by {
                    let yy = spec_px_row(width as int, idx);
                    let xx = spec_px_col(width as int, idx);
                    let cc = spec_px_ch(idx);
                    vstd::arithmetic::div_mod::lemma_fundamental_div_mod(idx, 4 * (width as int));
                    vstd::arithmetic::div_mod::lemma_fundamental_div_mod(
                        idx % (4 * (width as int)),
                        4,
                    );
                    assert(idx == yy * (4 * (width as int)) + (idx % (4 * (width as int))));
                    assert(idx % (4 * (width as int)) == xx * 4 + (idx % (4 * (width as int))) % 4);
                    assert(0 <= (idx % (4 * (width as int))) % 4 < 4);
                    assert(idx == (yy * width + xx) * 4 + (idx % (4 * (width as int))) % 4)
                        by (nonlinear_arith)
                        requires
                            idx == yy * (4 * (width as int)) + xx * 4 + (idx % (4 * (width as int)))
                                % 4,
                    ;
                }
            }
            y2 = y2 + 1;
        }
        proof {
            assert forall|idx: int|
                0 <= idx < len && spec_px_col(width as int, idx) < x2 + 1 implies pixels@[idx]
                == spec_vblur_at(hb, width as int, height as int, radius as int, idx) by {
                if spec_px_col(width as int, idx) == x2 as int {
                    assert(spec_px_row(width as int, idx) < height) by {
                        let w4 = 4 * (width as int);
                        vstd::arithmetic::div_mod::lemma_fundamental_div_mod(idx, w4);
                        vstd::arithmetic::div_mod::lemma_mod_bound(idx, w4);
                        let q = idx / w4;
                        let r = idx % w4;
                        assert(idx == w4 * q + r);
                        assert(0 <= r < w4);
                        assert((height as int) * w4 == len) by (nonlinear_arith)
                            requires
                                len == width * height * 4,
                                w4 == 4 * (width as int),
                        ;
                        if q >= height {
                            assert(w4 * q >= w4 * (height as int)) by (nonlinear_arith)
                                requires
                                    q >= height as int,
                                    w4 > 0,
                            ;
                            assert(false);
                        }
                    }
                }
            }
        }
        x2 = x2 + 1;
    }
    proof {
        assert forall|idx: int| 0 <= idx < len implies spec_px_col(width as int, idx)
            < width as int by {
            assert(0 <= idx % (4 * (width as int)) < 4 * (width as int));
            assert(spec_px_col(width as int, idx) < width as int) by (nonlinear_arith)
                requires
                    0 <= idx % (4 * (width as int)) < 4 * (width as int),
                    spec_px_col(width as int, idx) == (idx % (4 * (width as int))) / 4,
                    width >= 1,
            ;
        }
        assert(pixels@ =~= spec_vblur(hb, width as int, height as int, radius as int));
    }
}

} // verus!
