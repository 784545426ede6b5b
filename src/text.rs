use vstd::prelude::*;
use crate::model::Color;
use crate::raster::{Raster, color_bytes};

verus! {

/// A font, as the bytes of its TrueType or OpenType file.
pub struct FontData {
    pub bytes: Vec<u8>,
}

/// The pixels after `text` is drawn in colour `rgba` with its top-left at
/// `(x, y)`, in the font of `font` at `size_pt` points, clipped to the raster.
pub uninterp spec fn text_drawn(data: Seq<u8>, width: nat, height: nat, rgba: Seq<u8>, x: int, y: int, size_pt: nat, font: Seq<u8>, text: Seq<char>) -> Seq<u8>;

/// The width in pixels that `text` takes in the font of `font` at `size_pt`.
pub uninterp spec fn text_width_of(font: Seq<u8>, size_pt: nat, text: Seq<char>) -> nat;

/// The line height in pixels of the font of `font` at `size_pt`, rounded up.
pub uninterp spec fn line_height_of(font: Seq<u8>, size_pt: nat) -> nat;

/// The pixels of a `width` × `height` raster turned a quarter turn
/// counter-clockwise (the result is `height` × `width`).
pub uninterp spec fn rotated_270(data: Seq<u8>, width: nat, height: nat) -> Seq<u8>;

/// Relies on imageproc::drawing::draw_text_mut (with ab_glyph's
/// FontRef::try_from_slice and Font::pt_to_px_scale for the font and its
/// scale): it blends the glyphs into the image, clipped to it, and keeps its
/// size. Text in a font that does not parse is not drawn.
#[verifier::external_body]
pub(crate) fn draw_text(r: &mut Raster, color: Color, x: i32, y: i32, size_pt: u32, font: &FontData, text: &str)
    requires
        old(r).wf(),
        crate::raster::in_draw_range(x as int),
        crate::raster::in_draw_range(y as int),
    ensures
        final(r).wf(),
        final(r).width == old(r).width,
        final(r).height == old(r).height,
        final(r).data@ == text_drawn(old(r).data@, old(r).width as nat, old(r).height as nat, color_bytes(color), x as int, y as int, size_pt as nat, font.bytes@, text@),
{
    let data = std::mem::take(&mut r.data);
    let mut img = image::RgbaImage::from_raw(r.width, r.height, data).unwrap();
    if let Ok(f) = ab_glyph::FontRef::try_from_slice(&font.bytes) {
        let pt = size_pt as _;
        let scale = ab_glyph::Font::pt_to_px_scale(&f, pt).unwrap_or(ab_glyph::PxScale::from(pt));
        let pixel = image::Rgba([color.r, color.g, color.b, color.a]);
        imageproc::drawing::draw_text_mut(&mut img, pixel, x, y, scale, &f, text);
    }
    r.data = img.into_raw();
}

/// Relies on imageproc::drawing::text_size (with ab_glyph for the font and
/// its scale): the width that the text takes; zero for a font that does not
/// parse.
#[verifier::external_body]
pub(crate) fn text_width(size_pt: u32, font: &FontData, text: &str) -> (r: u32)
    ensures
        r as nat == text_width_of(font.bytes@, size_pt as nat, text@),
{
    match ab_glyph::FontRef::try_from_slice(&font.bytes) {
        Ok(f) => {
            let pt = size_pt as _;
            let scale = ab_glyph::Font::pt_to_px_scale(&f, pt).unwrap_or(ab_glyph::PxScale::from(pt));
            imageproc::drawing::text_size(scale, &f, text).0
        },
        Err(_) => 0,
    }
}

/// Relies on ab_glyph's ScaleFont::height: the line height at the font's
/// scale for `size_pt`, rounded up; zero for a font that does not parse.
#[verifier::external_body]
pub(crate) fn line_height(size_pt: u32, font: &FontData) -> (r: u32)
    ensures
        r as nat == line_height_of(font.bytes@, size_pt as nat),
{
    match ab_glyph::FontRef::try_from_slice(&font.bytes) {
        Ok(f) => {
            let pt = size_pt as _;
            let scale = ab_glyph::Font::pt_to_px_scale(&f, pt).unwrap_or(ab_glyph::PxScale::from(pt));
            ab_glyph::ScaleFont::height(&ab_glyph::Font::as_scaled(&f, scale)).ceil() as u32
        },
        Err(_) => 0,
    }
}

/// Relies on image::imageops::rotate270: the image turned a quarter turn
/// counter-clockwise, its width and height swapped.
#[verifier::external_body]
pub(crate) fn rotate_270(r: &Raster) -> (out: Raster)
    requires
        r.wf(),
    ensures
        out.wf(),
        out.width == r.height,
        out.height == r.width,
        out.data@ == rotated_270(r.data@, r.width as nat, r.height as nat),
{
    let img = image::ImageBuffer::<image::Rgba<u8>, &[u8]>::from_raw(r.width, r.height, r.data.as_slice()).unwrap();
    let rotated = image::imageops::rotate270(&img);
    Raster { width: rotated.width(), height: rotated.height(), data: rotated.into_raw() }
}

} // verus!
