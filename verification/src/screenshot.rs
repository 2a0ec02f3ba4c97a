//! Decoding a captured framebuffer into the canonical workspace image.
//! The older generation stores 16-bit grayscale pairs whose high bytes
//! pass through the tone curve and an orientation fix; the newer one
//! is row-major RGBA used as-is. Both are resized to the canonical
//! resolution and encoded losslessly; the caller reads the raw bytes
//! from the foreign process and hands them in.

use vstd::prelude::*;

use crate::codecs;
use crate::device_model::DeviceModel;
use crate::errors::Error;
use crate::image_ops;

verus! {

/// Canonical workspace dimensions as unsigned pixel counts.
pub const CANVAS_W: u32 = 768;

pub const CANVAS_H: u32 = 1024;

/// The tone-curved grayscale plane of an older-generation frame: the
/// high byte of each 16-bit pixel pair, contrast-restored.
pub open spec fn sp_rm2_gray(raw: Seq<u8>) -> Seq<u8> {
    Seq::new((raw.len() / 2) as nat, |i: int| image_ops::sp_tone(raw[2 * i + 1] as int) as u8)
}

/// The same plane with the sensor orientation corrected: rotated 270
/// degrees and mirrored, giving a 1404 by 1872 portrait image.
pub open spec fn sp_rm2_oriented(raw: Seq<u8>) -> Seq<u8> {
    Seq::new((1872 * 1404) as nat, |i: int| sp_rm2_gray(raw)[image_ops::sp_rotflip_src(1872, 1404, i)])
}

/// The canonical grayscale image of an older-generation frame.
pub open spec fn sp_rm2_canonical(raw: Seq<u8>) -> Seq<u8> {
    Seq::new(
        (768 * 1024) as nat,
        |i: int| sp_rm2_oriented(raw)[image_ops::sp_resize_src(1404, 1872, 768, 1024, 1, i)],
    )
}

/// The canonical RGBA image of a newer-generation frame.
pub open spec fn sp_rmpp_canonical(raw: Seq<u8>) -> Seq<u8> {
    Seq::new(
        (768 * 1024 * 4) as nat,
        |i: int| raw[image_ops::sp_resize_src(1632, 2154, 768, 1024, 4, i)],
    )
}

/// The canonical PNG that a raw frame decodes to, per variant.
pub open spec fn sp_canonical_png(model: DeviceModel, raw: Seq<u8>) -> Seq<u8> {
    match model {
        DeviceModel::RemarkablePaperPro => codecs::sp_png_of_rgba(sp_rmpp_canonical(raw), 768, 1024),
        _ => codecs::sp_png_of_luma(sp_rm2_canonical(raw), 768, 1024),
    }
}

/// The captured frame: the canonical PNG bytes and the variant they
/// were decoded for.
pub struct Screenshot {
    data: Vec<u8>,
    device_model: DeviceModel,
}

impl Screenshot {
    /// Which variant this capture pipeline decodes for.
    pub closed spec fn spec_model(self) -> DeviceModel {
        self.device_model
    }

    /// The canonical PNG bytes of the last captured frame.
    pub closed spec fn spec_data(self) -> Seq<u8> {
        self.data@
    }

    /// A capture pipeline for the given variant, with no frame yet.
    pub fn new(device_model: DeviceModel) -> (r: Screenshot)
        ensures
            r.spec_model() == device_model,
            r.spec_data() == Seq::<u8>::empty(),
    {
        Screenshot { data: Vec::new(), device_model }
    }

    /// Framebuffer width in native pixels.
    pub fn screen_width(&self) -> (r: u32)
        ensures
            r == self.spec_model().spec_screen_width(),
    {
        self.device_model.screen_width()
    }

    /// Framebuffer height in native pixels.
    pub fn screen_height(&self) -> (r: u32)
        ensures
            r == self.spec_model().spec_screen_height(),
    {
        self.device_model.screen_height()
    }

    /// Bytes per framebuffer pixel.
    pub fn bytes_per_pixel(&self) -> (r: usize)
        ensures
            r == self.spec_model().spec_bytes_per_pixel(),
    {
        self.device_model.bytes_per_pixel()
    }

    /// Decode one raw frame, read by the caller from the compositor's
    /// memory, into the canonical PNG: per variant, tone curve and
    /// orientation fix or raw RGBA, then a nearest-neighbor resize to
    /// the canonical workspace and a lossless encode. Decoding never
    /// fails: a whole frame always yields the canonical PNG.
    pub fn take_screenshot(&mut self, raw: Vec<u8>) -> (r: Result<(), Error>)
        requires
            raw@.len() == old(self).spec_model().spec_screen_width()
                * old(self).spec_model().spec_screen_height()
                * old(self).spec_model().spec_bytes_per_pixel(),
        ensures
            r is Ok,
            final(self).spec_model() == old(self).spec_model(),
            final(self).spec_data() == sp_canonical_png(old(self).spec_model(), raw@),
    {
        let png = match self.device_model {
            DeviceModel::RemarkablePaperPro => {
                let resized = image_ops::resize_nearest(&raw, 1632, 2154, 768, 1024, 4);
                proof {
                    lemma_resize_src_in_bounds(1632, 2154, 768, 1024, 4);
                    assert(resized@ =~= sp_rmpp_canonical(raw@));
                }
                codecs::encode_png_rgba(&resized, CANVAS_W, CANVAS_H)
            },
            _ => {
                let high = image_ops::high_bytes(&raw);
                let gray = image_ops::apply_curves_all(&high);
                proof {
                    assert(gray@ =~= sp_rm2_gray(raw@));
                }
                let oriented = image_ops::rotate270_flip_horizontal(&gray, 1872, 1404);
                proof {
                    lemma_rotflip_src_in_bounds(1872, 1404);
                    assert(oriented@ =~= sp_rm2_oriented(raw@));
                }
                let resized = image_ops::resize_nearest(&oriented, 1404, 1872, 768, 1024, 1);
                proof {
                    lemma_resize_src_in_bounds(1404, 1872, 768, 1024, 1);
                    assert(resized@ =~= sp_rm2_canonical(raw@));
                }
                codecs::encode_png_luma(&resized, CANVAS_W, CANVAS_H)
            },
        };
        match png {
            Ok(bytes) => {
                self.data = bytes;
                Ok(())
            },
            Err(e) => Err(e),
        }
    }

    /// The canonical PNG in base64 form, for the analysis boundary.
    pub fn base64(&self) -> (r: String)
        requires
            self.spec_data().len() <= 0x1000_0000_0000,
        ensures
            r@ == codecs::sp_base64_of(self.spec_data()),
    {
        codecs::base64_encode(&self.data)
    }

    /// The canonical PNG bytes of the last captured frame.
    pub fn get_image_data(&self) -> (r: &[u8])
        ensures
            r@ == self.spec_data(),
    {
        self.data.as_slice()
    }
}

/// Every resize source index lands inside the input image.
pub proof fn lemma_resize_src_in_bounds(w_in: int, h_in: int, w_out: int, h_out: int, bpp: int)
    requires
        1 <= w_in,
        1 <= h_in,
        1 <= w_out,
        1 <= h_out,
        1 <= bpp,
    ensures
        forall|i: int|
            0 <= i < w_out * h_out * bpp ==> 0 <= #[trigger] image_ops::sp_resize_src(
                w_in,
                h_in,
                w_out,
                h_out,
                bpp,
                i,
            ) < w_in * h_in * bpp,
{
    assert forall|i: int|
        0 <= i < w_out * h_out * bpp implies 0 <= #[trigger] image_ops::sp_resize_src(
        w_in,
        h_in,
        w_out,
        h_out,
        bpp,
        i,
    ) < w_in * h_in * bpp by {
        let c = i % bpp;
        let p = i / bpp;
        vstd::arithmetic::div_mod::lemma_mod_division_less_than_divisor(i, bpp);
        vstd::arithmetic::div_mod::lemma_div_pos_is_pos(i, bpp);
        vstd::arithmetic::div_mod::lemma_fundamental_div_mod(i, bpp);
        assert(p < w_out * h_out) by (nonlinear_arith)
            requires
                bpp * p + c == i,
                0 <= c,
                i < w_out * h_out * bpp,
                1 <= bpp,
                0 <= p,
        ;
        let x = p % w_out;
        let y = p / w_out;
        vstd::arithmetic::div_mod::lemma_mod_division_less_than_divisor(p, w_out);
        vstd::arithmetic::div_mod::lemma_div_pos_is_pos(p, w_out);
        vstd::arithmetic::div_mod::lemma_fundamental_div_mod(p, w_out);
        assert(y < h_out) by (nonlinear_arith)
            requires
                w_out * y + x == p,
                0 <= x,
                p < w_out * h_out,
                1 <= w_out,
                0 <= y,
        ;
        crate::pen::lemma_div_fraction_below(y, h_in, h_out);
        crate::pen::lemma_div_fraction_below(x, w_in, w_out);
        let sy = y * h_in / h_out;
        let sx = x * w_in / w_out;
        assert(0 <= (sy * w_in + sx) * bpp + c) by (nonlinear_arith)
            requires
                0 <= sy,
                0 <= sx,
                0 <= c,
                1 <= w_in,
                1 <= bpp,
        ;
        assert((sy * w_in + sx) * bpp + c < w_in * h_in * bpp) by (nonlinear_arith)
            requires
                0 <= sy,
                sy <= h_in - 1,
                0 <= sx,
                sx <= w_in - 1,
                0 <= c < bpp,
                1 <= w_in,
                1 <= h_in,
                1 <= bpp,
        ;
    }
}

/// Every orientation-fix source index lands inside the input image.
pub proof fn lemma_rotflip_src_in_bounds(w: int, h: int)
    requires
        1 <= w,
        1 <= h,
    ensures
        forall|i: int|
            0 <= i < w * h ==> 0 <= #[trigger] image_ops::sp_rotflip_src(w, h, i) < w * h,
{
    assert forall|i: int|
        0 <= i < w * h implies 0 <= #[trigger] image_ops::sp_rotflip_src(w, h, i) < w * h by {
        let u = i % h;
        let v = i / h;
        vstd::arithmetic::div_mod::lemma_mod_division_less_than_divisor(i, h);
        vstd::arithmetic::div_mod::lemma_div_pos_is_pos(i, h);
        vstd::arithmetic::div_mod::lemma_fundamental_div_mod(i, h);
        assert(v < w) by (nonlinear_arith)
            requires
                h * v + u == i,
                0 <= u,
                i < w * h,
                1 <= h,
                0 <= v,
        ;
        assert(0 <= (h - 1 - u) * w + (w - 1 - v)) by (nonlinear_arith)
            requires
                0 <= u <= h - 1,
                0 <= v <= w - 1,
                1 <= w,
        ;
        assert((h - 1 - u) * w + (w - 1 - v) < w * h) by (nonlinear_arith)
            requires
                0 <= u <= h - 1,
                0 <= v <= w - 1,
                1 <= w,
                1 <= h,
        ;
    }
}

} // verus!
