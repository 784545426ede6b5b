use vstd::prelude::*;
use crate::model::Color;

verus! {

/// The largest magnitude of a coordinate handed to the line rasterizer,
/// which works on `f32` and is exact up to this bound.
pub const MAX_DRAW_COORD: i32 = 0x100_0000;

/// The largest radius of a stamped disk.
pub const MAX_RADIUS: i32 = 0x400;

/// An RGBA raster: `width * height` pixels, row by row, four bytes each.
pub struct Raster {
    pub width: u32,
    pub height: u32,
    pub data: Vec<u8>,
}

pub open spec fn color_bytes(c: Color) -> Seq<u8> {
    seq![c.r, c.g, c.b, c.a]
}

/// `n` pixels of colour `c`.
pub open spec fn filled_pixels(n: nat, c: Color) -> Seq<u8> {
    Seq::new(4 * n, |i: int| color_bytes(c)[i % 4])
}

impl Raster {
    pub open spec fn wf(&self) -> bool {
        self.data@.len() == 4 * self.width * self.height
    }

    /// Whether this raster is `width` × `height` and every pixel has colour `c`.
    pub open spec fn is_filled(&self, width: u32, height: u32, c: Color) -> bool {
        &&& self.width == width
        &&& self.height == height
        &&& self.data@ == filled_pixels((width * height) as nat, c)
    }

    /// A `width` × `height` raster with every pixel of colour `color`.
    pub fn filled(width: u32, height: u32, color: Color) -> (r: Raster)
        requires
            4 * width * height <= usize::MAX,
        ensures
            r.wf(),
            r.is_filled(width, height, color),
    {
        assert(4 * width * height == 4 * (width * height) && width * height <= 4 * width * height) by (nonlinear_arith);
        let n: usize = 4 * ((width as usize) * (height as usize));
        let mut data: Vec<u8> = Vec::with_capacity(n);
        let mut i: usize = 0;
        while i < n
            invariant
                0 <= i <= n,
                n == 4 * (width * height),
                data@.len() == i,
                forall|j: int| 0 <= j < i ==> #[trigger] data@[j] == color_bytes(color)[j % 4],
            decreases n - i,
        {
            let b = if i % 4 == 0 {
                color.r
            } else if i % 4 == 1 {
                color.g
            } else if i % 4 == 2 {
                color.b
            } else {
                color.a
            };
            data.push(b);
            i = i + 1;
        }
        assert(data@ =~= filled_pixels((width * height) as nat, color));
        Raster { width, height, data }
    }
}

/// The pixels after a filled disk of colour `rgba` is drawn at
/// `(cx, cy)` with `radius`, clipped to the raster.
pub uninterp spec fn disk_stamped(data: Seq<u8>, width: nat, height: nat, cx: int, cy: int, radius: int, rgba: Seq<u8>) -> Seq<u8>;

/// The integer points that the Bresenham walk from `(x0, y0)` to `(x1, y1)`
/// visits.
pub uninterp spec fn bresenham_points(x0: int, y0: int, x1: int, y1: int) -> Seq<(i32, i32)>;

/// The pixels after a one-pixel line of colour `rgba` is drawn from
/// `(x0, y0)` to `(x1, y1)`, clipped to the raster.
pub uninterp spec fn segment_drawn(data: Seq<u8>, width: nat, height: nat, x0: int, y0: int, x1: int, y1: int, rgba: Seq<u8>) -> Seq<u8>;

/// The pixels of `bottom` after `top` is alpha-blended over it with its
/// top-left corner at `(x, y)`, clipped to `bottom`.
pub uninterp spec fn overlaid(bottom: Seq<u8>, bw: nat, bh: nat, top: Seq<u8>, tw: nat, th: nat, x: int, y: int) -> Seq<u8>;

pub open spec fn in_draw_range(v: int) -> bool {
    -MAX_DRAW_COORD <= v <= MAX_DRAW_COORD
}

/// Relies on imageproc::drawing::draw_filled_circle_mut: it draws a filled
/// disk, clipped to the image, and keeps the image's size.
#[verifier::external_body]
fn stamp_disk(r: &mut Raster, cx: i32, cy: i32, radius: i32, color: Color)
    requires
        old(r).wf(),
        in_draw_range(cx as int),
        in_draw_range(cy as int),
        0 <= radius <= MAX_RADIUS,
    ensures
        final(r).wf(),
        final(r).width == old(r).width,
        final(r).height == old(r).height,
        final(r).data@ == disk_stamped(old(r).data@, old(r).width as nat, old(r).height as nat, cx as int, cy as int, radius as int, color_bytes(color)),
{
    let data = std::mem::take(&mut r.data);
    let mut img = image::RgbaImage::from_raw(r.width, r.height, data).unwrap();
    let pixel = image::Rgba([color.r, color.g, color.b, color.a]);
    imageproc::drawing::draw_filled_circle_mut(&mut img, (cx, cy), radius, pixel);
    r.data = img.into_raw();
}

/// Relies on imageproc::drawing::BresenhamLineIter: the points of the line
/// walk between two points, which depend on the end points alone; the walk
/// steps along the major axis from one end to the other and moves at most
/// as far as the other end along the minor axis, so every point lies in the
/// segment's bounding box.
#[verifier::external_body]
fn line_points(x0: i32, y0: i32, x1: i32, y1: i32) -> (r: Vec<(i32, i32)>)
    requires
        in_draw_range(x0 as int),
        in_draw_range(y0 as int),
        in_draw_range(x1 as int),
        in_draw_range(y1 as int),
    ensures
        r@ == bresenham_points(x0 as int, y0 as int, x1 as int, y1 as int),
        forall|i: int| 0 <= i < r@.len() ==> {
            &&& (x0 <= x1 ==> x0 <= (#[trigger] r@[i]).0 <= x1) && (x1 <= x0 ==> x1 <= r@[i].0 <= x0)
            &&& (y0 <= y1 ==> y0 <= r@[i].1 <= y1) && (y1 <= y0 ==> y1 <= r@[i].1 <= y0)
        },
{
    imageproc::drawing::BresenhamLineIter::new((x0 as _, y0 as _), (x1 as _, y1 as _)).collect()
}

/// Relies on imageproc::drawing::draw_line_segment_mut: it draws the part of
/// the segment inside the image and keeps the image's size.
#[verifier::external_body]
pub(crate) fn draw_segment(r: &mut Raster, x0: i32, y0: i32, x1: i32, y1: i32, color: Color)
    requires
        old(r).wf(),
        in_draw_range(x0 as int),
        in_draw_range(y0 as int),
        in_draw_range(x1 as int),
        in_draw_range(y1 as int),
    ensures
        final(r).wf(),
        final(r).width == old(r).width,
        final(r).height == old(r).height,
        final(r).data@ == segment_drawn(old(r).data@, old(r).width as nat, old(r).height as nat, x0 as int, y0 as int, x1 as int, y1 as int, color_bytes(color)),
{
    let data = std::mem::take(&mut r.data);
    let mut img = image::RgbaImage::from_raw(r.width, r.height, data).unwrap();
    let pixel = image::Rgba([color.r, color.g, color.b, color.a]);
    imageproc::drawing::draw_line_segment_mut(&mut img, (x0 as _, y0 as _), (x1 as _, y1 as _), pixel);
    r.data = img.into_raw();
}

/// Relies on image::imageops::overlay: source-over blending of `top` onto
/// `bottom`, clipped to `bottom`, which keeps its size.
#[verifier::external_body]
pub(crate) fn overlay_raster(bottom: &mut Raster, top: &Raster, x: i64, y: i64)
    requires
        old(bottom).wf(),
        top.wf(),
    ensures
        final(bottom).wf(),
        final(bottom).width == old(bottom).width,
        final(bottom).height == old(bottom).height,
        final(bottom).data@ == overlaid(old(bottom).data@, old(bottom).width as nat, old(bottom).height as nat, top.data@, top.width as nat, top.height as nat, x as int, y as int),
{
    let data = std::mem::take(&mut bottom.data);
    let mut img = image::RgbaImage::from_raw(bottom.width, bottom.height, data).unwrap();
    let top_img = image::ImageBuffer::<image::Rgba<u8>, &[u8]>::from_raw(top.width, top.height, top.data.as_slice()).unwrap();
    image::imageops::overlay(&mut img, &top_img, x, y);
    bottom.data = img.into_raw();
}

/// The pixels after a disk of `radius` is stamped at each of `pts` in turn.
pub open spec fn disks_stamped(data: Seq<u8>, width: nat, height: nat, pts: Seq<(i32, i32)>, radius: int, rgba: Seq<u8>) -> Seq<u8>
    decreases pts.len(),
{
    if pts.len() == 0 {
        data
    } else {
        let last = pts.last();
        disk_stamped(disks_stamped(data, width, height, pts.drop_last(), radius, rgba), width, height, last.0 as int, last.1 as int, radius, rgba)
    }
}

/// The pixels after a line of `thickness` is drawn from `start` to `end`: a
/// disk of radius `ceil(thickness / 2)` at every point of the Bresenham walk.
pub open spec fn thick_line_drawn(data: Seq<u8>, width: nat, height: nat, start: (i32, i32), end: (i32, i32), thickness: int, rgba: Seq<u8>) -> Seq<u8> {
    disks_stamped(data, width, height, bresenham_points(start.0 as int, start.1 as int, end.0 as int, end.1 as int), (thickness + 1) / 2, rgba)
}

/// Draws a line of `thickness` from `start` to `end`, stamping a filled disk
/// of radius `ceil(thickness / 2)` at every point of the Bresenham walk, for
/// an even stroke with round joins and caps.
pub fn draw_thick_line_mut(image: &mut Raster, start: (i32, i32), end: (i32, i32), color: Color, thickness: i32)
    requires
        old(image).wf(),
        in_draw_range(start.0 as int),
        in_draw_range(start.1 as int),
        in_draw_range(end.0 as int),
        in_draw_range(end.1 as int),
        0 <= thickness < MAX_RADIUS,
    ensures
        final(image).wf(),
        final(image).width == old(image).width,
        final(image).height == old(image).height,
        final(image).data@ == thick_line_drawn(old(image).data@, old(image).width as nat, old(image).height as nat, start, end, thickness as int, color_bytes(color)),
{
    let radius = (thickness + 1) / 2;
    let points = line_points(start.0, start.1, end.0, end.1);
    let ghost d0 = image.data@;
    let ghost w = image.width as nat;
    let ghost h = image.height as nat;
    let mut i: usize = 0;
    while i < points.len()
        invariant
            0 <= i <= points@.len(),
            image.wf(),
            image.width == w,
            image.height == h,
            0 <= radius <= MAX_RADIUS,
            points@ == bresenham_points(start.0 as int, start.1 as int, end.0 as int, end.1 as int),
            forall|k: int| 0 <= k < points@.len() ==> in_draw_range((#[trigger] points@[k]).0 as int) && in_draw_range(points@[k].1 as int),
            image.data@ == disks_stamped(d0, w, h, points@.take(i as int), radius as int, color_bytes(color)),
        decreases points@.len() - i,
    {
        let p = points[i];
        stamp_disk(image, p.0, p.1, radius, color);
        assert(points@.take(i + 1).drop_last() =~= points@.take(i as int));
        i = i + 1;
    }
    assert(points@.take(points@.len() as int) =~= points@);
}

} // verus!
