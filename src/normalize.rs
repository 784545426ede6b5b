use vstd::prelude::*;
use crate::model::DriverPosition;

verus! {

/// The x coordinates of both series, first series first.
pub open spec fn xs_of(a: Seq<DriverPosition>, b: Seq<DriverPosition>) -> Seq<int> {
    (a + b).map_values(|p: DriverPosition| p.x as int)
}

/// The y coordinates of both series, first series first.
pub open spec fn ys_of(a: Seq<DriverPosition>, b: Seq<DriverPosition>) -> Seq<int> {
    (a + b).map_values(|p: DriverPosition| p.y as int)
}

pub open spec fn min_x(a: Seq<DriverPosition>, b: Seq<DriverPosition>) -> int {
    xs_of(a, b).min()
}

pub open spec fn max_x(a: Seq<DriverPosition>, b: Seq<DriverPosition>) -> int {
    xs_of(a, b).max()
}

pub open spec fn min_y(a: Seq<DriverPosition>, b: Seq<DriverPosition>) -> int {
    ys_of(a, b).min()
}

pub open spec fn max_y(a: Seq<DriverPosition>, b: Seq<DriverPosition>) -> int {
    ys_of(a, b).max()
}

proof fn lemma_min_characterized(s: Seq<int>, m: int, w: int)
    requires
        0 <= w < s.len(),
        s[w] == m,
        forall|i: int| 0 <= i < s.len() ==> m <= s[i],
    ensures
        m == s.min(),
{
    s.min_ensures();
    let k = choose|k: int| 0 <= k < s.len() && s[k] == s.min();
    assert(m <= s[k]);
}

pub(crate) proof fn lemma_max_characterized(s: Seq<int>, m: int, w: int)
    requires
        0 <= w < s.len(),
        s[w] == m,
        forall|i: int| 0 <= i < s.len() ==> s[i] <= m,
    ensures
        m == s.max(),
{
    s.max_ensures();
    let k = choose|k: int| 0 <= k < s.len() && s[k] == s.max();
    assert(s[k] <= m);
}

/// Every coordinate of both series lies in the combined bounding box.
pub proof fn lemma_bounding_box(a: Seq<DriverPosition>, b: Seq<DriverPosition>)
    requires
        a.len() + b.len() > 0,
    ensures
        forall|i: int| 0 <= i < a.len() ==> min_x(a, b) <= #[trigger] a[i].x <= max_x(a, b) && min_y(a, b) <= a[i].y <= max_y(a, b),
        forall|i: int| 0 <= i < b.len() ==> min_x(a, b) <= #[trigger] b[i].x <= max_x(a, b) && min_y(a, b) <= b[i].y <= max_y(a, b),
        exists|i: int| 0 <= i < xs_of(a, b).len() && xs_of(a, b)[i] == min_x(a, b),
        exists|i: int| 0 <= i < xs_of(a, b).len() && xs_of(a, b)[i] == max_x(a, b),
        exists|i: int| 0 <= i < ys_of(a, b).len() && ys_of(a, b)[i] == min_y(a, b),
        exists|i: int| 0 <= i < ys_of(a, b).len() && ys_of(a, b)[i] == max_y(a, b),
{
    xs_of(a, b).min_ensures();
    xs_of(a, b).max_ensures();
    ys_of(a, b).min_ensures();
    ys_of(a, b).max_ensures();
    assert forall|i: int| 0 <= i < a.len() implies min_x(a, b) <= #[trigger] a[i].x <= max_x(a, b) && min_y(a, b) <= a[i].y <= max_y(a, b) by {
        assert(xs_of(a, b)[i] == a[i].x);
        assert(ys_of(a, b)[i] == a[i].y);
    }
    assert forall|i: int| 0 <= i < b.len() implies min_x(a, b) <= #[trigger] b[i].x <= max_x(a, b) && min_y(a, b) <= b[i].y <= max_y(a, b) by {
        assert(xs_of(a, b)[a.len() + i] == b[i].x);
        assert(ys_of(a, b)[a.len() + i] == b[i].y);
    }
}

/// The combined bounding box of both series: `((min x, max x), (min y, max y))`.
pub fn find_extrema(d1: &Vec<DriverPosition>, d2: &Vec<DriverPosition>) -> (r: ((i32, i32), (i32, i32)))
    requires
        d1@.len() > 0,
        d2@.len() > 0,
    ensures
        r.0.0 == min_x(d1@, d2@),
        r.0.1 == max_x(d1@, d2@),
        r.1.0 == min_y(d1@, d2@),
        r.1.1 == max_y(d1@, d2@),
{
    let ghost xs = xs_of(d1@, d2@);
    let ghost ys = ys_of(d1@, d2@);
    let ghost n1 = d1@.len() as int;
    let first = d1[0];
    let mut lo_x = first.x;
    let mut hi_x = first.x;
    let mut lo_y = first.y;
    let mut hi_y = first.y;
    let ghost mut w_lo_x: int = 0;
    let ghost mut w_hi_x: int = 0;
    let ghost mut w_lo_y: int = 0;
    let ghost mut w_hi_y: int = 0;
    let mut k: usize = 1;
    while k < d1.len()
        invariant
            n1 == d1@.len(),
            xs == xs_of(d1@, d2@),
            ys == ys_of(d1@, d2@),
            xs.len() == n1 + d2@.len(),
            ys.len() == n1 + d2@.len(),
            1 <= k <= n1,
            0 <= w_lo_x < k && xs[w_lo_x] == lo_x,
            0 <= w_hi_x < k && xs[w_hi_x] == hi_x,
            0 <= w_lo_y < k && ys[w_lo_y] == lo_y,
            0 <= w_hi_y < k && ys[w_hi_y] == hi_y,
            forall|j: int| 0 <= j < k ==> lo_x <= #[trigger] xs[j] <= hi_x,
            forall|j: int| 0 <= j < k ==> lo_y <= #[trigger] ys[j] <= hi_y,
        decreases n1 - k,
    {
        let p = d1[k];
        assert(xs[k as int] == p.x && ys[k as int] == p.y);
        if p.x < lo_x {
            lo_x = p.x;
            proof { w_lo_x = k as int; }
        }
        if p.x > hi_x {
            hi_x = p.x;
            proof { w_hi_x = k as int; }
        }
        if p.y < lo_y {
            lo_y = p.y;
            proof { w_lo_y = k as int; }
        }
        if p.y > hi_y {
            hi_y = p.y;
            proof { w_hi_y = k as int; }
        }
        k = k + 1;
    }
    let mut k: usize = 0;
    while k < d2.len()
        invariant
            n1 == d1@.len(),
            xs == xs_of(d1@, d2@),
            ys == ys_of(d1@, d2@),
            xs.len() == n1 + d2@.len(),
            ys.len() == n1 + d2@.len(),
            0 <= k <= d2@.len(),
            0 <= w_lo_x < n1 + k && xs[w_lo_x] == lo_x,
            0 <= w_hi_x < n1 + k && xs[w_hi_x] == hi_x,
            0 <= w_lo_y < n1 + k && ys[w_lo_y] == lo_y,
            0 <= w_hi_y < n1 + k && ys[w_hi_y] == hi_y,
            forall|j: int| 0 <= j < n1 + k ==> lo_x <= #[trigger] xs[j] <= hi_x,
            forall|j: int| 0 <= j < n1 + k ==> lo_y <= #[trigger] ys[j] <= hi_y,
        decreases d2@.len() - k,
    {
        let p = d2[k];
        assert(xs[n1 + k] == p.x && ys[n1 + k] == p.y);
        if p.x < lo_x {
            lo_x = p.x;
            proof { w_lo_x = n1 + k; }
        }
        if p.x > hi_x {
            hi_x = p.x;
            proof { w_hi_x = n1 + k; }
        }
        if p.y < lo_y {
            lo_y = p.y;
            proof { w_lo_y = n1 + k; }
        }
        if p.y > hi_y {
            hi_y = p.y;
            proof { w_hi_y = n1 + k; }
        }
        k = k + 1;
    }
    proof {
        lemma_min_characterized(xs, lo_x as int, w_lo_x);
        lemma_max_characterized(xs, hi_x as int, w_hi_x);
        lemma_min_characterized(ys, lo_y as int, w_lo_y);
        lemma_max_characterized(ys, hi_y as int, w_hi_y);
    }
    ((lo_x, hi_x), (lo_y, hi_y))
}

/// The shift that moves a negative minimum to zero.
pub open spec fn shift_of(lo: int) -> int {
    if lo < 0 {
        -lo
    } else {
        0
    }
}

pub open spec fn shifted_max_x(a: Seq<DriverPosition>, b: Seq<DriverPosition>) -> int {
    max_x(a, b) + shift_of(min_x(a, b))
}

pub open spec fn shifted_max_y(a: Seq<DriverPosition>, b: Seq<DriverPosition>) -> int {
    max_y(a, b) + shift_of(min_y(a, b))
}

/// Whether the shifted series overflow the target: x runs along the height,
/// y along the width.
pub open spec fn needs_rescale(a: Seq<DriverPosition>, b: Seq<DriverPosition>, width: int, height: int) -> bool {
    shifted_max_x(a, b) > height || shifted_max_y(a, b) > width
}

/// The downscale ratio as the fraction `num / den`: the larger of
/// `max x / height` and `max y / width`, or one where nothing overflows.
pub open spec fn scale_ratio(a: Seq<DriverPosition>, b: Seq<DriverPosition>, width: int, height: int) -> (int, int) {
    let mx = shifted_max_x(a, b);
    let my = shifted_max_y(a, b);
    if !needs_rescale(a, b, width, height) {
        (1, 1)
    } else if mx * width >= my * height {
        (mx, height)
    } else {
        (my, width)
    }
}

/// `c` divided by the ratio `n / d`, rounded to the nearest integer, halves
/// upwards.
pub open spec fn scaled(c: int, n: int, d: int) -> int {
    (2 * c * d + n) / (2 * n)
}

/// Where a position of either series ends up after the shift and the
/// uniform downscale.
pub open spec fn resized_position(
    p: DriverPosition,
    a: Seq<DriverPosition>,
    b: Seq<DriverPosition>,
    width: int,
    height: int,
) -> DriverPosition {
    let r = scale_ratio(a, b, width, height);
    DriverPosition {
        x: scaled(p.x + shift_of(min_x(a, b)), r.0, r.1) as i32,
        y: scaled(p.y + shift_of(min_y(a, b)), r.0, r.1) as i32,
    }
}

pub open spec fn fits_i32(v: int) -> bool {
    i32::MIN <= v <= i32::MAX
}

fn shift_all(v: &mut Vec<DriverPosition>, dx: i64, dy: i64)
    requires
        translation_fits(old(v)@, (dx as int, dy as int)),
    ensures
        final(v)@.len() == old(v)@.len(),
        forall|i: int| 0 <= i < old(v)@.len() ==> #[trigger] final(v)@[i] == (DriverPosition {
            x: (old(v)@[i].x + dx) as i32,
            y: (old(v)@[i].y + dy) as i32,
        }),
{
    let ghost v0 = v@;
    let mut i: usize = 0;
    while i < v.len()
        invariant
            v@.len() == v0.len(),
            0 <= i <= v0.len(),
            translation_fits(v0, (dx as int, dy as int)),
            forall|j: int| 0 <= j < i ==> #[trigger] v@[j] == (DriverPosition { x: (v0[j].x + dx) as i32, y: (v0[j].y + dy) as i32 }),
            forall|j: int| i <= j < v0.len() ==> #[trigger] v@[j] == v0[j],
        decreases v0.len() - i,
    {
        let p = v[i];
        let q = DriverPosition { x: (p.x as i64 + dx) as i32, y: (p.y as i64 + dy) as i32 };
        v.set(i, q);
        i = i + 1;
    }
}

fn scaled_exec(c: i32, n: u64, d: u64) -> (r: i32)
    requires
        c >= 0,
        0 < d <= n <= u32::MAX,
    ensures
        r as int == scaled(c as int, n as int, d as int),
        0 <= r <= c,
{
    assert(0 <= 2 * c * d <= 2 * 0x8000_0000 * 0x1_0000_0000) by (nonlinear_arith)
        requires 0 <= c < 0x8000_0000, 0 < d <= 0xffff_ffff;
    let num: u128 = 2 * (c as u128) * (d as u128) + n as u128;
    let q: u128 = num / (2 * n as u128);
    assert(q <= c) by (nonlinear_arith)
        requires
            q == (2 * c * d + n) / (2 * n),
            0 < d <= n,
            c >= 0;
    q as i32
}

fn scale_all(v: &mut Vec<DriverPosition>, n: u64, d: u64)
    requires
        0 < d <= n <= u32::MAX,
        forall|i: int| 0 <= i < old(v)@.len() ==> old(v)@[i].x >= 0 && old(v)@[i].y >= 0,
    ensures
        final(v)@.len() == old(v)@.len(),
        forall|i: int| 0 <= i < old(v)@.len() ==> #[trigger] final(v)@[i] == (DriverPosition {
            x: scaled(old(v)@[i].x as int, n as int, d as int) as i32,
            y: scaled(old(v)@[i].y as int, n as int, d as int) as i32,
        }),
{
    let ghost v0 = v@;
    let mut i: usize = 0;
    while i < v.len()
        invariant
            v@.len() == v0.len(),
            0 <= i <= v0.len(),
            0 < d <= n <= u32::MAX,
            forall|j: int| 0 <= j < v0.len() ==> v0[j].x >= 0 && v0[j].y >= 0,
            forall|j: int| 0 <= j < i ==> #[trigger] v@[j] == (DriverPosition {
                x: scaled(v0[j].x as int, n as int, d as int) as i32,
                y: scaled(v0[j].y as int, n as int, d as int) as i32,
            }),
            forall|j: int| i <= j < v0.len() ==> #[trigger] v@[j] == v0[j],
        decreases v0.len() - i,
    {
        let p = v[i];
        let q = DriverPosition { x: scaled_exec(p.x, n, d), y: scaled_exec(p.y, n, d) };
        v.set(i, q);
        i = i + 1;
    }
}

proof fn lemma_scaled_identity(c: int)
    requires
        c >= 0,
    ensures
        scaled(c, 1, 1) == c,
{
    assert((2 * c * 1 + 1) / (2 * 1int) == c) by (nonlinear_arith)
        requires c >= 0;
}

/// Shifts both series so that no coordinate is negative and, where the
/// result overflows `height` along x or `width` along y, divides every
/// coordinate of both series by one ratio, the larger of the two overflow
/// ratios, rounding to nearest.
pub fn resize_data_to_dims(d1: &mut Vec<DriverPosition>, d2: &mut Vec<DriverPosition>, width: u32, height: u32)
    requires
        old(d1)@.len() > 0,
        old(d2)@.len() > 0,
        width > 0,
        height > 0,
        shifted_max_x(old(d1)@, old(d2)@) <= i32::MAX,
        shifted_max_y(old(d1)@, old(d2)@) <= i32::MAX,
    ensures
        final(d1)@.len() == old(d1)@.len(),
        final(d2)@.len() == old(d2)@.len(),
        forall|i: int| 0 <= i < old(d1)@.len() ==> #[trigger] final(d1)@[i]
            == resized_position(old(d1)@[i], old(d1)@, old(d2)@, width as int, height as int),
        forall|i: int| 0 <= i < old(d2)@.len() ==> #[trigger] final(d2)@[i]
            == resized_position(old(d2)@[i], old(d1)@, old(d2)@, width as int, height as int),
{
    let ghost a = d1@;
    let ghost b = d2@;
    proof { lemma_bounding_box(a, b); }
    let ((lx, hx), (ly, hy)) = find_extrema(d1, d2);
    let sx: i64 = if lx < 0 { -(lx as i64) } else { 0 };
    let sy: i64 = if ly < 0 { -(ly as i64) } else { 0 };
    shift_all(d1, sx, sy);
    shift_all(d2, sx, sy);
    let ghost a1 = d1@;
    let ghost b1 = d2@;
    let mx: i64 = hx as i64 + sx;
    let my: i64 = hy as i64 + sy;
    if mx > height as i64 || my > width as i64 {
        assert(0 <= mx * width <= 0x8000_0000 * 0x1_0000_0000) by (nonlinear_arith)
            requires 0 <= mx < 0x8000_0000, 0 < width <= 0xffff_ffff;
        assert(0 <= my * height <= 0x8000_0000 * 0x1_0000_0000) by (nonlinear_arith)
            requires 0 <= my < 0x8000_0000, 0 < height <= 0xffff_ffff;
        let (n, d) = if (mx as u128) * (width as u128) >= (my as u128) * (height as u128) {
            (mx as u64, height as u64)
        } else {
            (my as u64, width as u64)
        };
        assert(0 < d <= n) by (nonlinear_arith)
            requires
                (mx > height || my > width),
                width > 0,
                height > 0,
                mx >= 0,
                my >= 0,
                (n == mx && d == height && mx * width >= my * height)
                    || (n == my && d == width && mx * width < my * height);
        scale_all(d1, n, d);
        scale_all(d2, n, d);
    } else {
        assert forall|i: int| 0 <= i < a.len() implies #[trigger] d1@[i]
            == resized_position(a[i], a, b, width as int, height as int) by {
            lemma_scaled_identity(a1[i].x as int);
            lemma_scaled_identity(a1[i].y as int);
        }
        assert forall|i: int| 0 <= i < b.len() implies #[trigger] d2@[i]
            == resized_position(b[i], a, b, width as int, height as int) by {
            lemma_scaled_identity(b1[i].x as int);
            lemma_scaled_identity(b1[i].y as int);
        }
    }
}

/// Integer halving that rounds toward zero.
pub open spec fn half_toward_zero(v: int) -> int {
    if v >= 0 {
        v / 2
    } else {
        -((-v) / 2)
    }
}

/// The translation that centres the combined bounding box: x along the
/// height, y along the width.
pub open spec fn centering_offset(a: Seq<DriverPosition>, b: Seq<DriverPosition>, width: int, height: int) -> (int, int) {
    (
        half_toward_zero(height - (max_x(a, b) - min_x(a, b))),
        half_toward_zero(width - (max_y(a, b) - min_y(a, b))),
    )
}

pub open spec fn translated(p: DriverPosition, off: (int, int)) -> DriverPosition {
    DriverPosition { x: (p.x + off.0) as i32, y: (p.y + off.1) as i32 }
}

pub open spec fn translation_fits(s: Seq<DriverPosition>, off: (int, int)) -> bool {
    forall|i: int| 0 <= i < s.len() ==> fits_i32((#[trigger] s[i]).x + off.0) && fits_i32(s[i].y + off.1)
}

fn half_toward_zero_exec(v: i64) -> (r: i64)
    requires
        v > i64::MIN,
    ensures
        r == half_toward_zero(v as int),
{
    if v >= 0 {
        v / 2
    } else {
        -((-v) / 2)
    }
}

/// Translates both series by the same offset so that their combined
/// bounding box is centred in `width` × `height` (x along the height).
pub fn center_data_to_dims(d1: &mut Vec<DriverPosition>, d2: &mut Vec<DriverPosition>, width: u32, height: u32)
    requires
        old(d1)@.len() > 0,
        old(d2)@.len() > 0,
        translation_fits(old(d1)@, centering_offset(old(d1)@, old(d2)@, width as int, height as int)),
        translation_fits(old(d2)@, centering_offset(old(d1)@, old(d2)@, width as int, height as int)),
    ensures
        final(d1)@.len() == old(d1)@.len(),
        final(d2)@.len() == old(d2)@.len(),
        forall|i: int| 0 <= i < old(d1)@.len() ==> #[trigger] final(d1)@[i]
            == translated(old(d1)@[i], centering_offset(old(d1)@, old(d2)@, width as int, height as int)),
        forall|i: int| 0 <= i < old(d2)@.len() ==> #[trigger] final(d2)@[i]
            == translated(old(d2)@[i], centering_offset(old(d1)@, old(d2)@, width as int, height as int)),
{
    let ((lx, hx), (ly, hy)) = find_extrema(d1, d2);
    let dx = half_toward_zero_exec(height as i64 - (hx as i64 - lx as i64));
    let dy = half_toward_zero_exec(width as i64 - (hy as i64 - ly as i64));
    shift_all(d1, dx, dy);
    shift_all(d2, dx, dy);
}

proof fn lemma_scaled_bounded(c: int, n: int, d: int, bound: int)
    requires
        c >= 0,
        n > 0,
        d > 0,
        bound >= 0,
        c * d <= bound * n,
    ensures
        0 <= scaled(c, n, d) <= bound,
{
    assert(0 <= scaled(c, n, d) <= bound) by (nonlinear_arith)
        requires
            scaled(c, n, d) == (2 * c * d + n) / (2 * n),
            c >= 0,
            n > 0,
            d > 0,
            bound >= 0,
            c * d <= bound * n;
}

/// Every resized position lies in `[0, height] × [0, width]`.
pub proof fn lemma_resized_bounds(a: Seq<DriverPosition>, b: Seq<DriverPosition>, width: int, height: int, p: DriverPosition)
    requires
        a.len() > 0,
        width > 0,
        height > 0,
        shifted_max_x(a, b) <= i32::MAX,
        shifted_max_y(a, b) <= i32::MAX,
        min_x(a, b) <= p.x <= max_x(a, b),
        min_y(a, b) <= p.y <= max_y(a, b),
    ensures
        0 <= resized_position(p, a, b, width, height).x <= height,
        0 <= resized_position(p, a, b, width, height).y <= width,
        resized_position(p, a, b, width, height).x == scaled(p.x + shift_of(min_x(a, b)), scale_ratio(a, b, width, height).0, scale_ratio(a, b, width, height).1),
        resized_position(p, a, b, width, height).y == scaled(p.y + shift_of(min_y(a, b)), scale_ratio(a, b, width, height).0, scale_ratio(a, b, width, height).1),
{
    let cx = p.x + shift_of(min_x(a, b));
    let cy = p.y + shift_of(min_y(a, b));
    let mx = shifted_max_x(a, b);
    let my = shifted_max_y(a, b);
    assert(0 <= cx <= mx && 0 <= cy <= my);
    if !needs_rescale(a, b, width, height) {
        lemma_scaled_identity(cx);
        lemma_scaled_identity(cy);
    } else if mx * width >= my * height {
        assert(height <= mx) by (nonlinear_arith)
            requires (mx > height || my > width), mx * width >= my * height, width > 0, height > 0, my >= 0;
        assert(cx * height <= height * mx) by (nonlinear_arith)
            requires 0 <= cx <= mx, height > 0;
        assert(cy * height <= width * mx) by (nonlinear_arith)
            requires 0 <= cy <= my, height > 0, mx * width >= my * height;
        assert(cx * height <= cx * mx) by (nonlinear_arith)
            requires 0 <= cx, height <= mx;
        assert(cy * height <= cy * mx) by (nonlinear_arith)
            requires 0 <= cy, height <= mx;
        lemma_scaled_bounded(cx, mx, height, height);
        lemma_scaled_bounded(cy, mx, height, width);
        lemma_scaled_bounded(cx, mx, height, cx);
        lemma_scaled_bounded(cy, mx, height, cy);
    } else {
        assert(width <= my) by (nonlinear_arith)
            requires (mx > height || my > width), mx * width < my * height, width > 0, height > 0, mx >= 0;
        assert(cx * width <= height * my) by (nonlinear_arith)
            requires 0 <= cx <= mx, width > 0, mx * width < my * height;
        assert(cy * width <= width * my) by (nonlinear_arith)
            requires 0 <= cy <= my, width > 0;
        assert(cx * width <= cx * my) by (nonlinear_arith)
            requires 0 <= cx, width <= my;
        assert(cy * width <= cy * my) by (nonlinear_arith)
            requires 0 <= cy, width <= my;
        lemma_scaled_bounded(cx, my, width, height);
        lemma_scaled_bounded(cy, my, width, width);
        lemma_scaled_bounded(cx, my, width, cx);
        lemma_scaled_bounded(cy, my, width, cy);
    }
}

pub open spec fn resized_series(
    s: Seq<DriverPosition>,
    a: Seq<DriverPosition>,
    b: Seq<DriverPosition>,
    width: int,
    height: int,
) -> Seq<DriverPosition> {
    s.map_values(|p: DriverPosition| resized_position(p, a, b, width, height))
}

/// Series `s`, one of `a` and `b`, after normalization into a
/// `width` × `height` canvas with `margin` kept free on every side: resized
/// into the inner box, then centred in the whole canvas.
pub open spec fn normalized_series(
    s: Seq<DriverPosition>,
    a: Seq<DriverPosition>,
    b: Seq<DriverPosition>,
    width: int,
    height: int,
    margin: int,
) -> Seq<DriverPosition> {
    let iw = width - 2 * margin;
    let ih = height - 2 * margin;
    let off = centering_offset(resized_series(a, a, b, iw, ih), resized_series(b, a, b, iw, ih), width, height);
    resized_series(s, a, b, iw, ih).map_values(|p: DriverPosition| translated(p, off))
}

/// What normalization asks of its inputs: two non-empty series, a canvas
/// wider and taller than twice the margin, and coordinates that fit `i32`
/// on the way.
pub open spec fn normalizable(a: Seq<DriverPosition>, b: Seq<DriverPosition>, width: int, height: int, margin: int) -> bool {
    &&& a.len() > 0
    &&& b.len() > 0
    &&& 0 <= margin
    &&& 2 * margin < width <= 0x4000_0000
    &&& 2 * margin < height <= 0x4000_0000
    &&& shifted_max_x(a, b) <= i32::MAX
    &&& shifted_max_y(a, b) <= i32::MAX
}

/// The resized series lie in the inner box, and so does their bounding box.
proof fn lemma_resized_series_bounds(a: Seq<DriverPosition>, b: Seq<DriverPosition>, iw: int, ih: int)
    requires
        a.len() > 0,
        b.len() > 0,
        iw > 0,
        ih > 0,
        shifted_max_x(a, b) <= i32::MAX,
        shifted_max_y(a, b) <= i32::MAX,
    ensures
        ({
            let ra = resized_series(a, a, b, iw, ih);
            let rb = resized_series(b, a, b, iw, ih);
            &&& forall|i: int| 0 <= i < ra.len() ==> 0 <= (#[trigger] ra[i]).x <= ih && 0 <= ra[i].y <= iw
            &&& forall|i: int| 0 <= i < rb.len() ==> 0 <= (#[trigger] rb[i]).x <= ih && 0 <= rb[i].y <= iw
            &&& 0 <= min_x(ra, rb) <= max_x(ra, rb) <= ih
            &&& 0 <= min_y(ra, rb) <= max_y(ra, rb) <= iw
        }),
{
    let ra = resized_series(a, a, b, iw, ih);
    let rb = resized_series(b, a, b, iw, ih);
    lemma_bounding_box(a, b);
    assert forall|i: int| 0 <= i < ra.len() implies 0 <= (#[trigger] ra[i]).x <= ih && 0 <= ra[i].y <= iw by {
        lemma_resized_bounds(a, b, iw, ih, a[i]);
    }
    assert forall|i: int| 0 <= i < rb.len() implies 0 <= (#[trigger] rb[i]).x <= ih && 0 <= rb[i].y <= iw by {
        lemma_resized_bounds(a, b, iw, ih, b[i]);
    }
    lemma_bounding_box(ra, rb);
    let xs = xs_of(ra, rb);
    let ys = ys_of(ra, rb);
    assert forall|k: int| 0 <= k < xs.len() implies 0 <= #[trigger] xs[k] <= ih by {
        if k < ra.len() {
            assert(xs[k] == ra[k].x);
        } else {
            assert(xs[k] == rb[k - ra.len()].x);
        }
    }
    assert forall|k: int| 0 <= k < ys.len() implies 0 <= #[trigger] ys[k] <= iw by {
        if k < ra.len() {
            assert(ys[k] == ra[k].y);
        } else {
            assert(ys[k] == rb[k - ra.len()].y);
        }
    }
    assert(ra.len() > 0 && ra[0].x == xs[0] && ra[0].y == ys[0]);
}

/// Both series lie in the canvas after normalization: no coordinate is
/// negative; each x is at most `height - margin` above the smallest resized
/// x, and each y at most `width - margin` above the smallest resized y; so
/// where the resized box starts within the margin, every x is below `height`
/// and every y below `width`.
pub proof fn lemma_normalized_fits(a: Seq<DriverPosition>, b: Seq<DriverPosition>, width: int, height: int, margin: int)
    requires
        normalizable(a, b, width, height, margin),
    ensures
        ({
            let iw = width - 2 * margin;
            let ih = height - 2 * margin;
            let lo_x = min_x(resized_series(a, a, b, iw, ih), resized_series(b, a, b, iw, ih));
            let lo_y = min_y(resized_series(a, a, b, iw, ih), resized_series(b, a, b, iw, ih));
            forall|s: Seq<DriverPosition>, i: int| (s == a || s == b) && 0 <= i < s.len() ==> {
                let q = #[trigger] normalized_series(s, a, b, width, height, margin)[i];
                &&& 0 <= q.x <= lo_x + height - margin
                &&& 0 <= q.y <= lo_y + width - margin
                &&& (lo_x < margin ==> q.x < height)
                &&& (lo_y < margin ==> q.y < width)
            }
        }),
{
    let iw = width - 2 * margin;
    let ih = height - 2 * margin;
    let ra = resized_series(a, a, b, iw, ih);
    let rb = resized_series(b, a, b, iw, ih);
    lemma_resized_series_bounds(a, b, iw, ih);
    let off = centering_offset(ra, rb, width, height);
    assert forall|s: Seq<DriverPosition>, i: int| (s == a || s == b) && 0 <= i < s.len() implies {
        let q = #[trigger] normalized_series(s, a, b, width, height, margin)[i];
        &&& 0 <= q.x <= min_x(ra, rb) + height - margin
        &&& 0 <= q.y <= min_y(ra, rb) + width - margin
        &&& (min_x(ra, rb) < margin ==> q.x < height)
        &&& (min_y(ra, rb) < margin ==> q.y < width)
    } by {
        let r = resized_series(s, a, b, iw, ih)[i];
        assert(r == if s == a { ra[i] } else { rb[i] });
        lemma_bounding_box(ra, rb);
    }
}

/// Normalization applies one scale factor to both axes: every resized
/// position of either series is its shifted x and its shifted y, each
/// divided by the same ratio `num / den` and rounded.
pub proof fn lemma_uniform_scale(a: Seq<DriverPosition>, b: Seq<DriverPosition>, width: int, height: int)
    requires
        a.len() > 0,
        b.len() > 0,
        width > 0,
        height > 0,
        shifted_max_x(a, b) <= i32::MAX,
        shifted_max_y(a, b) <= i32::MAX,
    ensures
        ({
            let r = scale_ratio(a, b, width, height);
            forall|s: Seq<DriverPosition>, i: int| (s == a || s == b) && 0 <= i < s.len() ==> {
                let q = #[trigger] resized_series(s, a, b, width, height)[i];
                &&& q.x == scaled(s[i].x + shift_of(min_x(a, b)), r.0, r.1)
                &&& q.y == scaled(s[i].y + shift_of(min_y(a, b)), r.0, r.1)
            }
        }),
{
    lemma_bounding_box(a, b);
    let r = scale_ratio(a, b, width, height);
    assert forall|s: Seq<DriverPosition>, i: int| (s == a || s == b) && 0 <= i < s.len() implies {
        let q = #[trigger] resized_series(s, a, b, width, height)[i];
        &&& q.x == scaled(s[i].x + shift_of(min_x(a, b)), r.0, r.1)
        &&& q.y == scaled(s[i].y + shift_of(min_y(a, b)), r.0, r.1)
    } by {
        lemma_resized_bounds(a, b, width, height, s[i]);
    }
}

/// Normalizes both series into a `width` × `height` canvas, keeping
/// `margin` free on every side: [`resize_data_to_dims`] into the inner box,
/// then [`center_data_to_dims`] in the whole canvas.
pub fn normalize(d1: &mut Vec<DriverPosition>, d2: &mut Vec<DriverPosition>, width: u32, height: u32, margin: u32)
    requires
        normalizable(old(d1)@, old(d2)@, width as int, height as int, margin as int),
    ensures
        final(d1)@ == normalized_series(old(d1)@, old(d1)@, old(d2)@, width as int, height as int, margin as int),
        final(d2)@ == normalized_series(old(d2)@, old(d1)@, old(d2)@, width as int, height as int, margin as int),
        forall|i: int| 0 <= i < final(d1)@.len() ==> 0 <= (#[trigger] final(d1)@[i]).x <= 2 * height && 0 <= final(d1)@[i].y <= 2 * width,
        forall|i: int| 0 <= i < final(d2)@.len() ==> 0 <= (#[trigger] final(d2)@[i]).x <= 2 * height && 0 <= final(d2)@[i].y <= 2 * width,
{
    let ghost a = d1@;
    let ghost b = d2@;
    let ghost iw = width - 2 * margin;
    let ghost ih = height - 2 * margin;
    resize_data_to_dims(d1, d2, width - 2 * margin, height - 2 * margin);
    assert(d1@ =~= resized_series(a, a, b, iw, ih));
    assert(d2@ =~= resized_series(b, a, b, iw, ih));
    proof {
        lemma_resized_series_bounds(a, b, iw, ih);
    }
    let ghost ra = d1@;
    let ghost rb = d2@;
    center_data_to_dims(d1, d2, width, height);
    assert(d1@ =~= normalized_series(a, a, b, width as int, height as int, margin as int));
    assert(d2@ =~= normalized_series(b, a, b, width as int, height as int, margin as int));
    proof {
        lemma_normalized_fits(a, b, width as int, height as int, margin as int);
        assert forall|i: int| 0 <= i < d1@.len() implies 0 <= (#[trigger] d1@[i]).x <= 2 * height && 0 <= d1@[i].y <= 2 * width by {
            assert(d1@[i] == normalized_series(a, a, b, width as int, height as int, margin as int)[i]);
        }
        assert forall|i: int| 0 <= i < d2@.len() implies 0 <= (#[trigger] d2@[i]).x <= 2 * height && 0 <= d2@[i].y <= 2 * width by {
            assert(d2@[i] == normalized_series(b, a, b, width as int, height as int, margin as int)[i]);
        }
    }
}

} // verus!
