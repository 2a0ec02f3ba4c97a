//! Pixel-level logic on raw grayscale buffers: the tone curve that
//! restores ink contrast, the orientation fix of the older sensor, the
//! nearest-neighbor resize to the canonical workspace, ink detection
//! for selective erasing and for the answer-page probe, and the glyph
//! raster helpers.

use vstd::prelude::*;

use crate::geometry::BoundingBox;

verus! {

/// Pixels darker than this count as ink.
pub const INK_THRESHOLD: u8 = 200;

/// How many rows around a detected ink row are erased with it.
pub const ERASE_MARGIN: i32 = 2;

/// How many of the topmost rows the answer-page probe inspects.
pub const HEADER_HEIGHT: usize = 100;

/// How many ink pixels the header must hold to count as an answer
/// page.
pub const MIN_INK_PIXELS: usize = 50;

/// The tone curve: values at or below the low threshold go to black,
/// values above the high threshold to white, and the narrow band
/// between is rescaled linearly across the full range.
pub open spec fn sp_tone(v: int) -> int {
    if v <= 11 {
        0
    } else if v <= 15 {
        (200 * v - 2295) / 3
    } else {
        255
    }
}

/// Apply the tone curve to one raw value.
pub fn apply_curves(value: u8) -> (r: u8)
    ensures
        r as int == sp_tone(value as int),
        0 <= r <= 255,
{
    if value <= 11 {
        0
    } else if value <= 15 {
        ((200 * (value as u32) - 2295) / 3) as u8
    } else {
        255
    }
}

/// Keep the high byte of each 16-bit pixel pair.
#[verifier::loop_isolation(false)]
pub fn high_bytes(data: &Vec<u8>) -> (r: Vec<u8>)
    ensures
        r@.len() == data@.len() / 2,
        forall|i: int| 0 <= i < r@.len() ==> r@[i] == data@[2 * i + 1],
{
    let n = data.len() / 2;
    let mut out: Vec<u8> = Vec::new();
    let mut i: usize = 0;
    while i < n
        invariant
            i <= n,
            out@.len() == i,
            forall|k: int| 0 <= k < i ==> out@[k] == data@[2 * k + 1],
        decreases n - i,
    {
        out.push(data[2 * i + 1]);
        i += 1;
    }
    out
}

/// Apply the tone curve across a whole buffer.
#[verifier::loop_isolation(false)]
pub fn apply_curves_all(data: &Vec<u8>) -> (r: Vec<u8>)
    ensures
        r@.len() == data@.len(),
        forall|i: int| 0 <= i < r@.len() ==> r@[i] as int == sp_tone(data@[i] as int),
{
    let n = data.len();
    let mut out: Vec<u8> = Vec::new();
    let mut i: usize = 0;
    while i < n
        invariant
            i <= n,
            out@.len() == i,
            forall|k: int| 0 <= k < i ==> out@[k] as int == sp_tone(data@[k] as int),
        decreases n - i,
    {
        out.push(apply_curves(data[i]));
        i += 1;
    }
    out
}

/// Flat source index of the orientation fix: the output pixel at
/// flat index `i` of an `h`-wide, `w`-tall result (column `i % h`,
/// row `i / h`) comes from input column `w-1-i/h`, row `h-1-i%h`.
pub open spec fn sp_rotflip_src(w: int, h: int, i: int) -> int {
    (h - 1 - i % h) * w + (w - 1 - i / h)
}

/// The orientation fix of the older sensor: rotate a `w` by `h`
/// grayscale image 270 degrees and mirror it horizontally. The result
/// is `h` wide and `w` tall.
#[verifier::loop_isolation(false)]
pub fn rotate270_flip_horizontal(data: &Vec<u8>, w: usize, h: usize) -> (r: Vec<u8>)
    requires
        data@.len() == w * h,
        w >= 1,
        h >= 1,
    ensures
        r@.len() == w * h,
        forall|i: int| 0 <= i < r@.len() ==> #[trigger] r@[i] == data@[sp_rotflip_src(
            w as int,
            h as int,
            i,
        )],
{
    proof {
        assert(vstd::std_specs::vec::spec_vec_len(data) == data@.len());
    }
    let mut out: Vec<u8> = Vec::new();
    let mut v: usize = 0;
    while v < w
        invariant
            v <= w,
            out@.len() == v * h,
            out@.len() <= w * h,
            forall|i: int| 0 <= i < out@.len() ==> #[trigger] out@[i] == data@[sp_rotflip_src(
                w as int,
                h as int,
                i,
            )],
        decreases w - v,
    {
        let mut u: usize = 0;
        while u < h
            invariant
                u <= h,
                v < w,
                out@.len() == v * h + u,
                out@.len() <= w * h,
                forall|i: int| 0 <= i < out@.len() ==> #[trigger] out@[i] == data@[sp_rotflip_src(
                    w as int,
                    h as int,
                    i,
                )],
            decreases h - u,
        {
            proof {
                assert((h - 1 - u as int) * w + (w - 1 - v as int) < w * h) by (nonlinear_arith)
                    requires
                        0 <= u as int,
                        u as int <= h - 1,
                        0 <= v as int,
                        v as int <= w - 1,
                        w >= 1,
                        h >= 1,
                ;
                assert((h - 1 - u as int) * w >= 0) by (nonlinear_arith)
                    requires
                        0 <= u as int,
                        u as int <= h - 1,
                        w >= 1,
                ;
                vstd::arithmetic::div_mod::lemma_fundamental_div_mod_converse(
                    v as int * h + u as int,
                    h as int,
                    v as int,
                    u as int,
                );
                assert(sp_rotflip_src(w as int, h as int, v as int * h + u as int) == (h - 1
                    - u as int) * w + (w - 1 - v as int));
                assert(v as int * h + u as int + 1 <= w * h) by (nonlinear_arith)
                    requires
                        0 <= u as int,
                        u as int <= h - 1,
                        0 <= v as int,
                        v as int <= w - 1,
                        w >= 1,
                        h >= 1,
                ;
            }
            let src = (h - 1 - u) * w + (w - 1 - v);
            out.push(data[src]);
            u += 1;
        }
        proof {
            assert(v as int * h + h == (v + 1) * h) by (nonlinear_arith);
        }
        v += 1;
    }
    out
}

/// Flat source index of the nearest-neighbor resize: the output byte
/// at flat index `i` (channel `i % bpp` of pixel `i / bpp`, at column
/// `(i/bpp) % w_out`, row `(i/bpp) / w_out`) samples the same channel
/// of input pixel `(x*w_in/w_out, y*h_in/h_out)`.
pub open spec fn sp_resize_src(
    w_in: int,
    h_in: int,
    w_out: int,
    h_out: int,
    bpp: int,
    i: int,
) -> int {
    let c = i % bpp;
    let p = i / bpp;
    let x = p % w_out;
    let y = p / w_out;
    ((y * h_in / h_out) * w_in + (x * w_in / w_out)) * bpp + c
}

/// Nearest-neighbor resize of a row-major image with `bpp` bytes per
/// pixel: output pixel `(x, y)` samples input pixel
/// `(x*w_in/w_out, y*h_in/h_out)`.
#[verifier::loop_isolation(false)]
#[verifier::rlimit(80)]
pub fn resize_nearest(
    data: &Vec<u8>,
    w_in: usize,
    h_in: usize,
    w_out: usize,
    h_out: usize,
    bpp: usize,
) -> (r: Vec<u8>)
    requires
        data@.len() == w_in * h_in * bpp,
        1 <= w_in <= 46_000,
        1 <= h_in <= 46_000,
        1 <= bpp <= 4,
        1 <= w_out <= 46_000,
        1 <= h_out <= 46_000,
        w_out * h_out * bpp <= 0x4000_0000,
    ensures
        r@.len() == w_out * h_out * bpp,
        forall|i: int| 0 <= i < r@.len() ==> #[trigger] r@[i] == data@[sp_resize_src(
            w_in as int,
            h_in as int,
            w_out as int,
            h_out as int,
            bpp as int,
            i,
        )],
{
    proof {
        assert(vstd::std_specs::vec::spec_vec_len(data) == data@.len());
        assert(w_out as int * h_out as int * bpp >= 1) by (nonlinear_arith)
            requires
                1 <= w_out,
                1 <= h_out,
                1 <= bpp,
        ;
        assert(w_out as int * h_out as int <= w_out as int * h_out as int * bpp)
            by (nonlinear_arith)
            requires
                1 <= w_out,
                1 <= h_out,
                1 <= bpp,
        ;
    }
    let total = w_out * h_out * bpp;
    let mut out: Vec<u8> = Vec::new();
    let mut i: usize = 0;
    while i < total
        invariant
            i <= total,
            total == w_out * h_out * bpp,
            out@.len() == i,
            forall|k: int| 0 <= k < i ==> #[trigger] out@[k] == data@[sp_resize_src(
                w_in as int,
                h_in as int,
                w_out as int,
                h_out as int,
                bpp as int,
                k,
            )],
        decreases total - i,
    {
        let c = i % bpp;
        let p = i / bpp;
        proof {
            vstd::arithmetic::div_mod::lemma_mod_division_less_than_divisor(i as int, bpp as int);
            vstd::arithmetic::div_mod::lemma_div_pos_is_pos(i as int, bpp as int);
            vstd::arithmetic::div_mod::lemma_fundamental_div_mod(i as int, bpp as int);
            assert((p as int) < w_out as int * h_out as int) by (nonlinear_arith)
                requires
                    p as int == i as int / bpp as int,
                    bpp as int * p as int + c == i,
                    0 <= c,
                    (i as int) < w_out as int * h_out as int * bpp,
                    1 <= bpp,
            ;
        }
        let x = p % w_out;
        let y = p / w_out;
        proof {
            vstd::arithmetic::div_mod::lemma_mod_division_less_than_divisor(p as int, w_out as int);
            vstd::arithmetic::div_mod::lemma_div_pos_is_pos(p as int, w_out as int);
            vstd::arithmetic::div_mod::lemma_fundamental_div_mod(p as int, w_out as int);
            assert((y as int) < h_out as int) by (nonlinear_arith)
                requires
                    y as int == p as int / w_out as int,
                    w_out as int * y as int + x == p,
                    0 <= x,
                    (p as int) < w_out as int * h_out as int,
                    1 <= w_out,
            ;
            assert(y as int * h_in <= 46_000 * 46_000) by (nonlinear_arith)
                requires
                    0 <= y as int,
                    y as int <= 46_000,
                    0 <= h_in as int <= 46_000,
            ;
            assert(x as int * w_in <= 46_000 * 46_000) by (nonlinear_arith)
                requires
                    0 <= x as int,
                    x as int <= 46_000,
                    0 <= w_in as int <= 46_000,
            ;
            crate::pen::lemma_div_fraction_below(y as int, h_in as int, h_out as int);
            crate::pen::lemma_div_fraction_below(x as int, w_in as int, w_out as int);
        }
        let src_y = y * h_in / h_out;
        let src_x = x * w_in / w_out;
        proof {
            assert((src_y as int * w_in + src_x as int) * bpp + bpp <= w_in as int * h_in as int
                * bpp) by (nonlinear_arith)
                requires
                    0 <= src_y as int,
                    src_y as int <= h_in as int - 1,
                    0 <= src_x as int,
                    src_x as int <= w_in as int - 1,
                    1 <= w_in,
                    1 <= h_in,
                    1 <= bpp,
            ;
            assert(src_y as int * w_in <= 46_000 * 46_000) by (nonlinear_arith)
                requires
                    0 <= src_y as int,
                    src_y as int <= 46_000,
                    0 <= w_in as int <= 46_000,
            ;
            assert((src_y as int * w_in + src_x as int) * bpp >= 0) by (nonlinear_arith)
                requires
                    src_y >= 0,
                    src_x >= 0,
                    w_in >= 1,
                    bpp >= 1,
            ;
            assert(sp_resize_src(
                w_in as int,
                h_in as int,
                w_out as int,
                h_out as int,
                bpp as int,
                i as int,
            ) == (src_y as int * w_in + src_x as int) * bpp + c);
        }
        let src = (src_y * w_in + src_x) * bpp + c;
        out.push(data[src]);
        i += 1;
    }
    out
}

/// A row of the region carries ink: some pixel of that row, inside
/// both the region and the image, is darker than the threshold.
pub open spec fn sp_row_has_ink(
    data: Seq<u8>,
    w: int,
    region: BoundingBox,
    y: int,
) -> bool {
    exists|x: int|
        region.x <= x && x < region.x + region.width && x < 768 && 0 <= x < w && (#[trigger] data[y
            * w + x]) < INK_THRESHOLD
}

/// A row is scanned by the selective eraser: it lies inside both the
/// region (cut at the workspace bottom) and the image.
pub open spec fn sp_row_in_scan(w: int, h: int, region: BoundingBox, y: int) -> bool {
    region.y <= y && y < region.y + region.height && y < 1024 && 0 <= y < h
}

/// A row is selected for erasure: it lies in the region (cut at the
/// workspace bottom), at or after the region's top and not before row
/// zero, and within the margin of some scanned row that carries ink.
pub open spec fn sp_row_erased(data: Seq<u8>, w: int, h: int, region: BoundingBox, y: int) -> bool {
    region.y <= y && 0 <= y && y < region.y + region.height && y < 1024 && exists|yi: int|
        #[trigger] sp_row_in_scan(w, h, region, yi) && sp_row_has_ink(data, w, region, yi) && yi
        - ERASE_MARGIN as int <= y <= yi + ERASE_MARGIN as int
}

/// Whether one row of the region carries ink.
#[verifier::loop_isolation(false)]
fn row_has_ink(data: &Vec<u8>, w: usize, h: usize, region: &BoundingBox, y: i32) -> (r: bool)
    requires
        data@.len() == w * h,
        w <= 100_000,
        h <= 100_000,
        0 <= y < h,
        y < 1024,
    ensures
        r == sp_row_has_ink(data@, w as int, *region, y as int),
{
    proof {
        assert(vstd::std_specs::vec::spec_vec_len(data) == data@.len());
    }
    let lo: i32 = if region.x > 0 {
        region.x
    } else {
        0
    };
    let mut hi: i64 = region.x as i64 + region.width as i64;
    if hi > 768 {
        hi = 768;
    }
    if hi > w as i64 {
        hi = w as i64;
    }
    if region.width <= 0 || lo as i64 >= hi {
        proof {
            assert(!sp_row_has_ink(data@, w as int, *region, y as int));
        }
        return false;
    }
    let mut x: i32 = lo;
    let mut found = false;
    while (x as i64) < hi
        invariant
            lo <= x,
            x as i64 <= hi,
            hi <= 768 && hi <= w as int,
            hi <= region.x as int + region.width as int,
            lo as int == vstd::math::max(region.x as int, 0),
            0 <= y < h,
            data@.len() == w * h,
            found == exists|x2: int|
                region.x <= x2 && x2 < region.x + region.width && x2 < 768 && 0 <= x2 < w && x2
                    < x && (#[trigger] data@[y as int * w + x2]) < INK_THRESHOLD,
        decreases hi - x,
    {
        proof {
            assert((y as int * w + x as int) < w * h) by (nonlinear_arith)
                requires
                    0 <= y as int,
                    y as int <= h as int - 1,
                    0 <= x as int,
                    (x as int) < w as int,
                    w >= 1,
            ;
            assert(y as int * w >= 0) by (nonlinear_arith)
                requires
                    y >= 0,
                    w as int >= 0,
            ;
        }
        let idx = (y as usize) * w + (x as usize);
        if data[idx] < INK_THRESHOLD {
            found = true;
        }
        x += 1;
    }
    proof {
        if found {
            assert(sp_row_has_ink(data@, w as int, *region, y as int));
        } else {
            if sp_row_has_ink(data@, w as int, *region, y as int) {
                let x2 = choose|x2: int|
                    region.x <= x2 && x2 < region.x + region.width && x2 < 768 && 0 <= x2 < w && (
                    #[trigger] data@[y as int * w + x2]) < INK_THRESHOLD;
                assert(x2 < x);
                assert(false);
            }
        }
    }
    found
}

/// The rows the selective eraser strikes: every row of the region that
/// lies within the margin of a scanned row carrying ink, in ascending
/// order without repeats. Rows of the region with no ink nearby are
/// left untouched.
#[verifier::loop_isolation(false)]
pub fn erase_rows(data: &Vec<u8>, w: usize, h: usize, region: &BoundingBox) -> (r: Vec<i32>)
    requires
        data@.len() == w * h,
        1 <= w <= 100_000,
        1 <= h <= 100_000,
    ensures
        forall|y: i32|
            r@.contains(y) <==> sp_row_erased(data@, w as int, h as int, *region, y as int),
        forall|i: int, j: int| 0 <= i < j < r@.len() ==> r@[i] < r@[j],
{
    let mut out: Vec<i32> = Vec::new();
    let lo: i32 = if region.y > 0 {
        region.y
    } else {
        0
    };
    let mut hi: i64 = region.y as i64 + region.height as i64;
    if hi > 1024 {
        hi = 1024;
    }
    if region.height <= 0 || (lo as i64) >= hi {
        proof {
            assert(forall|y: i32| !sp_row_erased(data@, w as int, h as int, *region, y as int));
            assert(forall|y: i32| !out@.contains(y));
        }
        return out;
    }
    let mut y: i32 = lo;
    while (y as i64) < hi
        invariant
            lo <= y,
            y as i64 <= hi,
            lo as int == vstd::math::max(region.y as int, 0),
            hi <= 1024,
            hi <= region.y as int + region.height as int,
            hi > lo,
            data@.len() == w * h,
            1 <= w <= 100_000,
            1 <= h <= 100_000,
            forall|y2: i32|
                out@.contains(y2) <==> (sp_row_erased(data@, w as int, h as int, *region, y2 as int)
                    && y2 < y),
            forall|i: int, j: int| 0 <= i < j < out@.len() ==> out@[i] < out@[j],
            forall|i: int| 0 <= i < out@.len() ==> out@[i] < y,
        decreases hi - y,
    {
        let mut near_ink = false;
        let mut yi: i32 = if y >= 2 {
            y - 2
        } else {
            0
        };
        let scan_to: i32 = y + 2;
        while yi <= scan_to
            invariant
                y - 2 <= yi || (yi >= 0 && y - 2 < 0),
                yi >= 0,
                yi <= scan_to + 1,
                scan_to == y + 2,
                lo <= y,
                (y as int) < 1024,
                data@.len() == w * h,
                1 <= w <= 100_000,
                1 <= h <= 100_000,
                near_ink == exists|y2: int|
                    #[trigger] sp_row_in_scan(w as int, h as int, *region, y2) && sp_row_has_ink(
                        data@,
                        w as int,
                        *region,
                        y2,
                    ) && y as int - 2 <= y2 < yi,
            decreases scan_to + 1 - yi,
        {
            let in_scan = region.y <= yi && (yi as i64) < region.y as i64 + region.height as i64
                && yi < 1024 && (yi as usize) < h;
            proof {
                assert(in_scan == sp_row_in_scan(w as int, h as int, *region, yi as int));
            }
            if in_scan {
                if row_has_ink(data, w, h, region, yi) {
                    near_ink = true;
                    proof {
                        assert(sp_row_in_scan(w as int, h as int, *region, yi as int)
                            && sp_row_has_ink(data@, w as int, *region, yi as int) && y as int - 2
                            <= yi as int && (yi as int) < yi as int + 1);
                    }
                }
            }
            yi += 1;
        }
        let ghost prev = out@;
        if near_ink {
            out.push(y);
        }
        proof {
            if near_ink {
                assert(sp_row_erased(data@, w as int, h as int, *region, y as int));
                assert(out@ == prev.push(y));
                assert(out@[out@.len() - 1] == y);
                assert(out@.contains(y));
                assert forall|y2: i32| #[trigger] out@.contains(y2) implies (prev.contains(y2)
                    || y2 == y) by {
                    let k = choose|k: int| 0 <= k < out@.len() && out@[k] == y2;
                    if k < out@.len() - 1 {
                        assert(prev[k] == y2);
                        assert(prev.contains(y2));
                    }
                }
                assert forall|y2: i32| prev.contains(y2) implies #[trigger] out@.contains(y2) by {
                    let k = choose|k: int| 0 <= k < prev.len() && prev[k] == y2;
                    assert(out@[k] == y2);
                }
            } else {
                if sp_row_erased(data@, w as int, h as int, *region, y as int) {
                    let y2 = choose|y2: int|
                        #[trigger] sp_row_in_scan(w as int, h as int, *region, y2)
                            && sp_row_has_ink(data@, w as int, *region, y2) && y2
                            - ERASE_MARGIN as int <= y as int <= y2 + ERASE_MARGIN as int;
                    assert(y as int - 2 <= y2 < y as int + 3);
                    assert(y2 >= 0);
                    assert(false);
                }
            }
        }
        y += 1;
    }
    proof {
        assert(forall|y2: i32|
            sp_row_erased(data@, w as int, h as int, *region, y2 as int) ==> lo <= y2 && (
            y2 as int) < hi);
    }
    out
}

/// How many of the first `upto` bytes are darker than the ink
/// threshold.
pub open spec fn sp_dark_count(data: Seq<u8>, upto: int) -> int
    decreases upto,
{
    if upto <= 0 {
        0
    } else {
        sp_dark_count(data, upto - 1) + if data[upto - 1] < INK_THRESHOLD {
            1int
        } else {
            0int
        }
    }
}

/// The answer-page test: the header region (the topmost rows) of the
/// image holds at least the minimum number of ink pixels.
pub open spec fn sp_header_has_ink(data: Seq<u8>, w: int, h: int) -> bool {
    sp_dark_count(data, w * vstd::math::min(HEADER_HEIGHT as int, h)) >= MIN_INK_PIXELS as int
}

/// Decide whether an image's header region carries enough ink to mark
/// it as an answer page.
#[verifier::loop_isolation(false)]
pub fn header_has_ink(data: &Vec<u8>, w: usize, h: usize) -> (r: bool)
    requires
        data@.len() == w * h,
        w <= 100_000,
        h <= 100_000,
    ensures
        r == sp_header_has_ink(data@, w as int, h as int),
{
    let rows = if h < HEADER_HEIGHT {
        h
    } else {
        HEADER_HEIGHT
    };
    proof {
        assert(vstd::std_specs::vec::spec_vec_len(data) == data@.len());
        assert(w * rows <= w * h && w as int * rows <= 100_000 * 100_000) by (nonlinear_arith)
            requires
                rows <= h,
                w >= 0,
                w <= 100_000,
                rows <= 100_000,
        ;
    }
    let upto = w * rows;
    let mut count: usize = 0;
    let mut i: usize = 0;
    while i < upto
        invariant
            i <= upto,
            upto == w * vstd::math::min(HEADER_HEIGHT as int, h as int),
            upto <= data@.len(),
            count == sp_dark_count(data@, i as int),
            count <= i,
        decreases upto - i,
    {
        if data[i] < INK_THRESHOLD {
            count += 1;
        }
        i += 1;
    }
    count >= MIN_INK_PIXELS
}

/// Threshold a glyph's alpha raster into a square boolean bitmap:
/// a pixel is set exactly when its alpha exceeds half coverage.
#[verifier::loop_isolation(false)]
pub fn alpha_to_bitmap(alphas: &Vec<u8>, size: usize) -> (r: Vec<Vec<bool>>)
    requires
        alphas@.len() == size * size,
        size <= 10_000,
    ensures
        r@.len() == size,
        forall|y: int| 0 <= y < size ==> (#[trigger] r@[y])@.len() == size,
        forall|y: int, x: int|
            0 <= y < size && 0 <= x < size ==> #[trigger] r@[y]@[x] == (alphas@[y * size as int
                + x] > 128),
{
    proof {
        assert(vstd::std_specs::vec::spec_vec_len(alphas) == alphas@.len());
    }
    let mut rows: Vec<Vec<bool>> = Vec::new();
    let mut y: usize = 0;
    while y < size
        invariant
            y <= size,
            rows@.len() == y,
            alphas@.len() == size * size,
            forall|y2: int| 0 <= y2 < y ==> (#[trigger] rows@[y2])@.len() == size,
            forall|y2: int, x2: int|
                0 <= y2 < y && 0 <= x2 < size ==> #[trigger] rows@[y2]@[x2] == (alphas@[y2
                    * size as int + x2] > 128),
        decreases size - y,
    {
        let mut row: Vec<bool> = Vec::new();
        let mut x: usize = 0;
        while x < size
            invariant
                x <= size,
                y < size,
                row@.len() == x,
                alphas@.len() == size * size,
                forall|x2: int|
                    0 <= x2 < x ==> row@[x2] == (alphas@[y as int * size as int + x2] > 128),
            decreases size - x,
        {
            proof {
                assert((y as int * size + x as int) < size * size) by (nonlinear_arith)
                    requires
                        0 <= y as int,
                        (y as int) < size as int,
                        0 <= x as int,
                        (x as int) < size as int,
                ;
                assert(y as int * size >= 0) by (nonlinear_arith)
                    requires
                        y >= 0,
                        size as int >= 0,
                ;
            }
            row.push(alphas[y * size + x] > 128);
            x += 1;
        }
        rows.push(row);
        y += 1;
    }
    rows
}

/// Whether a pixel lies on the fallback ring: its squared distance
/// from the center falls between the inner and outer radius squares.
pub open spec fn sp_ring_pixel(size: int, x: int, y: int) -> bool {
    let center = size / 2;
    let radius = size * 2 / 5;
    let dx = x - center;
    let dy = y - center;
    dx * dx + dy * dy <= radius * radius && dx * dx + dy * dy >= (radius - 2) * (radius - 2)
}

/// The procedural ring used when glyph rendering fails: a circle
/// outline two pixels thick, centered in a square bitmap.
#[verifier::loop_isolation(false)]
pub fn fallback_circle_bitmap(size: usize) -> (r: Vec<Vec<bool>>)
    requires
        size <= 10_000,
    ensures
        r@.len() == size,
        forall|y: int| 0 <= y < size ==> (#[trigger] r@[y])@.len() == size,
        forall|y: int, x: int|
            0 <= y < size && 0 <= x < size ==> #[trigger] r@[y]@[x] == sp_ring_pixel(
                size as int,
                x,
                y,
            ),
{
    let center = (size / 2) as i64;
    let radius = (size * 2 / 5) as i64;
    let mut rows: Vec<Vec<bool>> = Vec::new();
    let mut y: usize = 0;
    while y < size
        invariant
            y <= size,
            rows@.len() == y,
            size <= 10_000,
            center == size as int / 2,
            radius == size as int * 2 / 5,
            forall|y2: int| 0 <= y2 < y ==> (#[trigger] rows@[y2])@.len() == size,
            forall|y2: int, x2: int|
                0 <= y2 < y && 0 <= x2 < size ==> #[trigger] rows@[y2]@[x2] == sp_ring_pixel(
                    size as int,
                    x2,
                    y2,
                ),
        decreases size - y,
    {
        let mut row: Vec<bool> = Vec::new();
        let mut x: usize = 0;
        while x < size
            invariant
                x <= size,
                y < size,
                size <= 10_000,
                center == size as int / 2,
                radius == size as int * 2 / 5,
                row@.len() == x,
                forall|x2: int|
                    0 <= x2 < x ==> row@[x2] == sp_ring_pixel(size as int, x2, y as int),
            decreases size - x,
        {
            let dx = x as i64 - center;
            let dy = y as i64 - center;
            proof {
                assert(dx * dx <= 10_000 * 10_000 && dx * dx >= 0) by (nonlinear_arith)
                    requires
                        -10_000 <= dx <= 10_000,
                ;
                assert(dy * dy <= 10_000 * 10_000 && dy * dy >= 0) by (nonlinear_arith)
                    requires
                        -10_000 <= dy <= 10_000,
                ;
                assert(radius * radius <= 10_000 * 10_000 && radius * radius >= 0)
                    by (nonlinear_arith)
                    requires
                        0 <= radius <= 10_000,
                ;
                assert((radius - 2) * (radius - 2) <= 10_002 * 10_002 && (radius - 2) * (radius - 2)
                    >= -0x7fff_ffff) by (nonlinear_arith)
                    requires
                        -2 <= radius - 2 <= 10_000,
                ;
            }
            let dist_sq = dx * dx + dy * dy;
            let hit = dist_sq <= radius * radius && dist_sq >= (radius - 2) * (radius - 2);
            row.push(hit);
            x += 1;
        }
        rows.push(row);
        y += 1;
    }
    rows
}

/// Turn a boolean bitmap into a grayscale buffer: set pixels are
/// black, clear ones white. The bitmap must be rectangular; the byte
/// at flat index `i` renders the bit at column `i % width`, row
/// `i / width`.
#[verifier::loop_isolation(false)]
pub fn bitmap_to_luma(bitmap: &Vec<Vec<bool>>) -> (r: Vec<u8>)
    requires
        bitmap@.len() >= 1,
        bitmap@[0]@.len() >= 1,
        forall|y: int|
            0 <= y < bitmap@.len() ==> (#[trigger] bitmap@[y])@.len() == bitmap@[0]@.len(),
        bitmap@.len() * bitmap@[0]@.len() <= 0x1000_0000,
    ensures
        r@.len() == bitmap@.len() * bitmap@[0]@.len(),
        forall|i: int| 0 <= i < r@.len() ==> #[trigger] r@[i] == (if bitmap@[i
            / bitmap@[0]@.len() as int]@[i % bitmap@[0]@.len() as int] {
            0u8
        } else {
            255u8
        }),
{
    let h = bitmap.len();
    let w = bitmap[0].len();
    let mut out: Vec<u8> = Vec::new();
    let mut y: usize = 0;
    while y < h
        invariant
            y <= h,
            h == bitmap@.len(),
            w == bitmap@[0]@.len(),
            w >= 1,
            h * w <= 0x1000_0000,
            out@.len() == y * w,
            forall|i: int| 0 <= i < out@.len() ==> #[trigger] out@[i] == (if bitmap@[i
                / w as int]@[i % w as int] {
                0u8
            } else {
                255u8
            }),
        decreases h - y,
    {
        let row = &bitmap[y];
        let mut x: usize = 0;
        while x < w
            invariant
                x <= w,
                y < h,
                h == bitmap@.len(),
                w == bitmap@[0]@.len(),
                w >= 1,
                h * w <= 0x1000_0000,
                row@ == bitmap@[y as int]@,
                out@.len() == y * w + x,
                forall|i: int| 0 <= i < out@.len() ==> #[trigger] out@[i] == (if bitmap@[i
                    / w as int]@[i % w as int] {
                    0u8
                } else {
                    255u8
                }),
            decreases w - x,
        {
            proof {
                vstd::arithmetic::div_mod::lemma_fundamental_div_mod_converse(
                    y as int * w + x as int,
                    w as int,
                    y as int,
                    x as int,
                );
                assert(y as int * w + x as int + 1 <= h as int * w as int) by (nonlinear_arith)
                    requires
                        0 <= y as int,
                        (y as int) < h as int,
                        0 <= x as int,
                        (x as int) < w as int,
                ;
            }
            out.push(
                if row[x] {
                    0
                } else {
                    255
                },
            );
            x += 1;
        }
        proof {
            assert(y as int * w + w == (y as int + 1) * w) by (nonlinear_arith);
        }
        y += 1;
    }
    proof {
        assert(h as int * w as int == bitmap@.len() * bitmap@[0]@.len());
    }
    out
}

} // verus!
