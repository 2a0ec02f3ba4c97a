//! The trusted boundary to the outside encoders: PNG encoding and
//! decoding, base64, and glyph rasterization. Each wrapper holds one
//! outside call; everything around the calls is verified against the
//! contracts stated here.

use vstd::prelude::*;

use base64::Engine;

use crate::errors::Error;

verus! {

/// The PNG encoding of an 8-bit grayscale image. The encoder is a pure
/// function of the pixels and dimensions.
pub uninterp spec fn sp_png_of_luma(pix: Seq<u8>, w: int, h: int) -> Seq<u8>;

/// The PNG encoding of an 8-bit RGBA image.
pub uninterp spec fn sp_png_of_rgba(pix: Seq<u8>, w: int, h: int) -> Seq<u8>;

/// The grayscale pixels and dimensions that decoding a PNG yields,
/// or nothing when the bytes do not decode. Decoding is a
/// deterministic function of the bytes.
pub uninterp spec fn sp_png_luma_of(png: Seq<u8>) -> Option<(Seq<u8>, int, int)>;

/// The base64 form of a byte string, standard alphabet with padding.
pub uninterp spec fn sp_base64_of(b: Seq<u8>) -> Seq<char>;

/// Relies on `image::codecs::png::PngEncoder::write_image` with the
/// 8-bit grayscale color type: a deterministic, lossless encoding of
/// the given buffer. The encoder asserts that the buffer length
/// matches the dimensions, so that is required here; with that length,
/// nonzero dimensions and an in-memory writer, its source has no
/// failing path (the only encoding errors are zero dimensions and
/// writer I/O), so success is promised.
#[verifier::external_body]
pub fn encode_png_luma(pixels: &Vec<u8>, w: u32, h: u32) -> (r: Result<Vec<u8>, Error>)
    requires
        pixels@.len() == w * h,
        1 <= w,
        1 <= h,
    ensures
        r is Ok,
        match r {
            Ok(png) => png@ == sp_png_of_luma(pixels@, w as int, h as int),
            Err(e) => e == Error::IoFailure,
        },
{
    let mut out: Vec<u8> = Vec::new();
    let encoder = image::codecs::png::PngEncoder::new(&mut out);
    match image::ImageEncoder::write_image(
        encoder,
        pixels.as_slice(),
        w,
        h,
        image::ExtendedColorType::L8,
    ) {
        Ok(()) => Ok(out),
        Err(_) => Err(Error::IoFailure),
    }
}

/// Relies on `image::codecs::png::PngEncoder::write_image` with the
/// 8-bit RGBA color type, as above; the buffer holds four bytes per
/// pixel, and success is promised on the same grounds.
#[verifier::external_body]
pub fn encode_png_rgba(pixels: &Vec<u8>, w: u32, h: u32) -> (r: Result<Vec<u8>, Error>)
    requires
        pixels@.len() == w * h * 4,
        1 <= w,
        1 <= h,
    ensures
        r is Ok,
        match r {
            Ok(png) => png@ == sp_png_of_rgba(pixels@, w as int, h as int),
            Err(e) => e == Error::IoFailure,
        },
{
    let mut out: Vec<u8> = Vec::new();
    let encoder = image::codecs::png::PngEncoder::new(&mut out);
    match image::ImageEncoder::write_image(
        encoder,
        pixels.as_slice(),
        w,
        h,
        image::ExtendedColorType::Rgba8,
    ) {
        Ok(()) => Ok(out),
        Err(_) => Err(Error::IoFailure),
    }
}

/// Relies on `image::load_from_memory` and
/// `image::DynamicImage::to_luma8`: decoding is a deterministic
/// function of the bytes, and the returned buffer of an image holds
/// exactly width times height pixels.
#[verifier::external_body]
pub fn decode_png_luma(png: &Vec<u8>) -> (r: Result<(Vec<u8>, u32, u32), Error>)
    ensures
        match r {
            Ok(d) => sp_png_luma_of(png@) == Some((d.0@, d.1 as int, d.2 as int)) && d.0@.len()
                == d.1 * d.2,
            Err(e) => e == Error::IoFailure && sp_png_luma_of(png@) is None,
        },
{
    match image::load_from_memory(png.as_slice()) {
        Ok(img) => {
            let gray = img.to_luma8();
            let w = gray.width();
            let h = gray.height();
            Ok((gray.into_raw(), w, h))
        },
        Err(_) => Err(Error::IoFailure),
    }
}

/// Relies on `base64::engine::general_purpose::STANDARD.encode`: the
/// standard alphabet with padding, four output characters for every
/// three input bytes. The length bound keeps the encoder's buffer-size
/// computation from overflowing.
#[verifier::external_body]
pub fn base64_encode(data: &Vec<u8>) -> (r: String)
    requires
        data@.len() <= 0x1000_0000_0000,
    ensures
        r@ == sp_base64_of(data@),
        r@.len() == 4 * ((data@.len() + 2) / 3),
{
    base64::engine::general_purpose::STANDARD.encode(data.as_slice())
}

/// Relies on `usvg::Tree::from_str`, `tiny_skia::Pixmap::new` and
/// `resvg::render` to rasterize one glyph, centered in a square of the
/// given size, onto a transparent canvas; the result is the alpha
/// channel, row-major. What the raster looks like depends on the fonts
/// installed on the machine, so nothing is promised of the values,
/// only of their count.
#[verifier::external_body]
pub fn render_glyph_alpha(glyph: &str, size: u32) -> (r: Result<Vec<u8>, Error>)
    requires
        1 <= size <= 10_000,
    ensures
        match r {
            Ok(alphas) => alphas@.len() == size * size,
            Err(e) => e == Error::IoFailure,
        },
{
    let mut fonts = resvg::usvg::fontdb::Database::new();
    fonts.load_system_fonts();
    let mut opt = resvg::usvg::Options::default();
    opt.fontdb = std::sync::Arc::new(fonts);
    let svg = format!(
        "<svg width='{size}' height='{size}' xmlns='http://www.w3.org/2000/svg'><text x='{}' y='{}' font-family='Noto Sans, DejaVu Sans, sans-serif' font-size='{}' fill='black' text-anchor='middle'>{glyph}</text></svg>",
        size / 2,
        size * 3 / 4,
        size * 4 / 5,
    );
    let tree = resvg::usvg::Tree::from_str(&svg, &opt).map_err(|_| Error::IoFailure)?;
    let mut pixmap = resvg::tiny_skia::Pixmap::new(size, size).ok_or(Error::IoFailure)?;
    resvg::render(&tree, resvg::usvg::Transform::default(), &mut pixmap.as_mut());
    Ok(pixmap.pixels().iter().map(|p| p.alpha()).collect())
}

} // verus!
