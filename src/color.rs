use vstd::prelude::*;
use crate::model::{Color, DriverData};

verus! {

pub open spec fn max3(a: int, b: int, c: int) -> int {
    if a >= b && a >= c {
        a
    } else if b >= c {
        b
    } else {
        c
    }
}

pub open spec fn min3(a: int, b: int, c: int) -> int {
    if a <= b && a <= c {
        a
    } else if b <= c {
        b
    } else {
        c
    }
}

/// Per-channel `max + min - channel` over red, green and blue; alpha kept.
pub open spec fn complementary_of(c: Color) -> Color {
    let hi = max3(c.r as int, c.g as int, c.b as int);
    let lo = min3(c.r as int, c.g as int, c.b as int);
    Color::rgb(hi + lo - c.r, hi + lo - c.g, hi + lo - c.b, c.a as int)
}

pub open spec fn opaque_white() -> Color {
    Color { r: 255, g: 255, b: 255, a: 255 }
}

/// The colour given to the second driver when both share one: white has no
/// complement of its own and becomes a light blue.
pub open spec fn alternative_color_of(c: Color) -> Color {
    if c == opaque_white() {
        Color { r: 102, g: 153, b: 255, a: 255 }
    } else {
        complementary_of(c)
    }
}

/// The second driver's team colour after disambiguation.
pub open spec fn disambiguated(c1: Color, c2: Color) -> Color {
    if c1 == c2 {
        alternative_color_of(c2)
    } else {
        c2
    }
}

/// The alpha, as the fraction `num / den`, that one channel asks for to
/// reproduce target `t` over background `bg`; none where the channel equals
/// the background or the background channel is saturated.
pub open spec fn channel_alpha(t: int, bg: int) -> Option<(int, int)> {
    if t != bg && bg < 255 {
        Some((t - bg, 255 - bg))
    } else {
        None
    }
}

pub open spec fn larger_alpha(a: Option<(int, int)>, b: Option<(int, int)>) -> Option<(int, int)> {
    match (a, b) {
        (Some(x), Some(y)) => if x.0 * y.1 >= y.0 * x.1 {
            Some(x)
        } else {
            Some(y)
        },
        (Some(x), None) => Some(x),
        (None, _) => b,
    }
}

/// The largest of the channel alphas, as a fraction `num / den`.
pub open spec fn blend_alpha(t: Color, bg: Color) -> Option<(int, int)> {
    larger_alpha(
        larger_alpha(channel_alpha(t.r as int, bg.r as int), channel_alpha(t.g as int, bg.g as int)),
        channel_alpha(t.b as int, bg.b as int),
    )
}

/// `x / n` rounded to the nearest integer, halves upwards (`n > 0`).
pub open spec fn round_div(x: int, n: int) -> int {
    (2 * x + n) / (2 * n)
}

pub open spec fn clamp_byte(v: int) -> int {
    if v < 0 {
        0
    } else if v > 255 {
        255
    } else {
        v
    }
}

/// The exact value `(t - (1 - α)·bg) / α` for `α = n / d`, times `n`.
pub open spec fn unclamped_foreground(t: int, bg: int, n: int, d: int) -> int {
    d * (t - bg) + n * bg
}

pub open spec fn foreground_channel(t: int, bg: int, n: int, d: int) -> int {
    clamp_byte(round_div(unclamped_foreground(t, bg, n, d), n))
}

/// `round(α · 256)` clamped to a byte.
pub open spec fn alpha_byte(n: int, d: int) -> int {
    clamp_byte(round_div(256 * n, d))
}

/// The translucent colour that, drawn over `bg`, reproduces the opaque
/// target `t`; `t` itself where no positive alpha does.
pub open spec fn reverse_blend(t: Color, bg: Color) -> Color {
    match blend_alpha(t, bg) {
        Some(a) => if a.0 > 0 {
            Color::rgb(
                foreground_channel(t.r as int, bg.r as int, a.0, a.1),
                foreground_channel(t.g as int, bg.g as int, a.0, a.1),
                foreground_channel(t.b as int, bg.b as int, a.0, a.1),
                alpha_byte(a.0, a.1),
            )
        } else {
            t
        },
        None => t,
    }
}

fn max_u8(a: u8, b: u8) -> (r: u8)
    ensures
        r == if a >= b { a } else { b },
{
    if a >= b {
        a
    } else {
        b
    }
}

fn min_u8(a: u8, b: u8) -> (r: u8)
    ensures
        r == if a <= b { a } else { b },
{
    if a <= b {
        a
    } else {
        b
    }
}

/// The complementary colour: each of red, green and blue becomes
/// `max + min - channel`; alpha is kept.
pub fn get_complementary_color(color: Color) -> (r: Color)
    ensures
        r == complementary_of(color),
{
    let hi = max_u8(color.r, max_u8(color.g, color.b)) as u16;
    let lo = min_u8(color.r, min_u8(color.g, color.b)) as u16;
    Color {
        r: (hi + lo - color.r as u16) as u8,
        g: (hi + lo - color.g as u16) as u8,
        b: (hi + lo - color.b as u16) as u8,
        a: color.a,
    }
}

fn channel_alpha_exec(t: u8, bg: u8) -> (r: Option<(i32, i32)>)
    ensures
        match (r, channel_alpha(t as int, bg as int)) {
            (Some(x), Some(y)) => x.0 as int == y.0 && x.1 as int == y.1,
            (None, None) => true,
            _ => false,
        },
{
    if t != bg && bg < 255 {
        Some((t as i32 - bg as i32, 255 - bg as i32))
    } else {
        None
    }
}

pub open spec fn alpha_view(a: Option<(i32, i32)>) -> Option<(int, int)> {
    match a {
        Some(x) => Some((x.0 as int, x.1 as int)),
        None => None,
    }
}

fn larger_alpha_exec(a: Option<(i32, i32)>, b: Option<(i32, i32)>) -> (r: Option<(i32, i32)>)
    requires
        a matches Some(x) ==> -255 <= x.0 <= 255 && 0 < x.1 <= 255,
        b matches Some(y) ==> -255 <= y.0 <= 255 && 0 < y.1 <= 255,
    ensures
        alpha_view(r) == larger_alpha(alpha_view(a), alpha_view(b)),
        r == a || r == b,
{
    match (a, b) {
        (Some(x), Some(y)) => {
            assert(-65025 <= x.0 * y.1 <= 65025) by (nonlinear_arith)
                requires -255 <= x.0 <= 255, 0 < y.1 <= 255;
            assert(-65025 <= y.0 * x.1 <= 65025) by (nonlinear_arith)
                requires -255 <= y.0 <= 255, 0 < x.1 <= 255;
            if x.0 * y.1 >= y.0 * x.1 {
                Some(x)
            } else {
                Some(y)
            }
        },
        (Some(x), None) => Some(x),
        (None, _) => b,
    }
}

fn foreground_channel_exec(t: u8, bg: u8, n: i32, d: i32) -> (r: u8)
    requires
        0 < n <= 255,
        0 < d <= 255,
    ensures
        r as int == foreground_channel(t as int, bg as int, n as int, d as int),
{
    assert(-65025 <= d * (t - bg) <= 65025) by (nonlinear_arith)
        requires 0 < d <= 255, 0 <= t <= 255, 0 <= bg <= 255;
    assert(0 <= n * bg <= 65025) by (nonlinear_arith)
        requires 0 < n <= 255, 0 <= bg <= 255;
    let x: i32 = d * (t as i32 - bg as i32) + n * bg as i32;
    let num: i32 = 2 * x + n;
    if num < 0 {
        assert((num as int) / (2 * n as int) < 0) by (nonlinear_arith)
            requires num < 0, n > 0;
        0
    } else {
        let q: i32 = num / (2 * n);
        if q > 255 {
            255
        } else {
            q as u8
        }
    }
}

/// Solves the alpha-compositing equation backwards: the colour that, drawn
/// translucently over `background`, reproduces the opaque `target`.
///
/// The alpha is the largest per-channel alpha `(t - bg) / (255 - bg)`; each
/// channel is then `(t - (1 - α)·bg) / α`, rounded to nearest and clamped to
/// a byte, and the output alpha is `round(α·256)` clamped to a byte. Where no
/// positive alpha exists the target itself is returned.
pub fn reverse_alpha_blend(target: Color, background: Color) -> (r: Color)
    ensures
        r == reverse_blend(target, background),
{
    let ar = channel_alpha_exec(target.r, background.r);
    let ag = channel_alpha_exec(target.g, background.g);
    let ab = channel_alpha_exec(target.b, background.b);
    let a = larger_alpha_exec(larger_alpha_exec(ar, ag), ab);
    match a {
        Some((n, d)) => {
            if n > 0 {
                let num: i32 = 512 * n + d;
                let q: i32 = num / (2 * d);
                let alpha: u8 = if q > 255 {
                    255
                } else {
                    q as u8
                };
                Color {
                    r: foreground_channel_exec(target.r, background.r, n, d),
                    g: foreground_channel_exec(target.g, background.g, n, d),
                    b: foreground_channel_exec(target.b, background.b, n, d),
                    a: alpha,
                }
            } else {
                target
            }
        },
        None => target,
    }
}

/// Resolves the two drivers' stroke colours.
///
/// Where both drivers share one team colour, the second driver's stored team
/// colour is replaced by its alternative (the complementary colour; a light
/// blue for white), so that later labels show it too. Each stroke colour is
/// then the reverse alpha blend of the (possibly replaced) team colour over
/// `background`.
pub fn get_driver_colors(driver1: &DriverData, driver2: &mut DriverData, background: Color) -> (r: (Color, Color))
    ensures
        final(driver2).team_color == disambiguated(driver1.team_color, old(driver2).team_color),
        final(driver2).broadcast_name == old(driver2).broadcast_name,
        final(driver2).team_name == old(driver2).team_name,
        r.0 == reverse_blend(driver1.team_color, background),
        r.1 == reverse_blend(final(driver2).team_color, background),
{
    let c1 = driver1.team_color;
    let c2 = driver2.team_color;
    if c1 == c2 {
        let white = Color { r: 255, g: 255, b: 255, a: 255 };
        driver2.team_color = if c2 == white {
            Color { r: 102, g: 153, b: 255, a: 255 }
        } else {
            get_complementary_color(c2)
        };
    }
    (reverse_alpha_blend(c1, background), reverse_alpha_blend(driver2.team_color, background))
}

/// When both drivers share one team colour, the second driver's resolved
/// team colour differs from it. Greys other than opaque white are their own
/// complement, so they are left out.
pub proof fn lemma_shared_color_disambiguated(c1: Color, c2: Color)
    requires
        c1 == c2,
        !(c1.r == c1.g && c1.g == c1.b) || c1 == opaque_white(),
    ensures
        disambiguated(c1, c2) != c1,
{
}

/// Compositing channel value `f` with alpha `n / d` over `bg` lands within
/// one unit of `t`: `|f·α + bg·(1 - α) - t| <= 1`, scaled by `d`.
pub open spec fn blends_back_to(f: int, bg: int, t: int, n: int, d: int) -> bool {
    let e = f * n + bg * (d - n) - t * d;
    -d <= e <= d
}

/// `p.0 / p.1 >= q.0 / q.1` for positive denominators.
pub open spec fn alpha_at_least(p: (int, int), q: (int, int)) -> bool {
    p.0 * q.1 >= q.0 * p.1
}

pub open spec fn well_formed_alpha(a: Option<(int, int)>) -> bool {
    a matches Some(x) ==> (-255 <= x.0 <= x.1 && 0 < x.1 <= 255)
}

proof fn lemma_alpha_at_least_transitive(p: (int, int), q: (int, int), s: (int, int))
    requires
        p.1 > 0,
        q.1 > 0,
        s.1 > 0,
        alpha_at_least(p, q),
        alpha_at_least(q, s),
    ensures
        alpha_at_least(p, s),
{
    assert(p.0 * q.1 * s.1 >= q.0 * p.1 * s.1) by (nonlinear_arith)
        requires p.0 * q.1 >= q.0 * p.1, s.1 > 0;
    assert(q.0 * s.1 * p.1 >= s.0 * q.1 * p.1) by (nonlinear_arith)
        requires q.0 * s.1 >= s.0 * q.1, p.1 > 0;
    assert(p.0 * s.1 >= s.0 * p.1) by (nonlinear_arith)
        requires
            p.0 * q.1 * s.1 >= q.0 * p.1 * s.1,
            q.0 * s.1 * p.1 >= s.0 * q.1 * p.1,
            q.1 > 0;
}

proof fn lemma_larger_alpha(a: Option<(int, int)>, b: Option<(int, int)>)
    requires
        well_formed_alpha(a),
        well_formed_alpha(b),
    ensures
        well_formed_alpha(larger_alpha(a, b)),
        larger_alpha(a, b) == a || larger_alpha(a, b) == b,
        larger_alpha(a, b) is None <==> (a is None && b is None),
        larger_alpha(a, b) matches Some(r) ==> (a matches Some(x) ==> alpha_at_least(r, x)),
        larger_alpha(a, b) matches Some(r) ==> (b matches Some(y) ==> alpha_at_least(r, y)),
{
}

/// The chosen alpha is at least the alpha that every channel asks for.
proof fn lemma_blend_alpha_dominates(t: Color, bg: Color)
    ensures
        well_formed_alpha(blend_alpha(t, bg)),
        blend_alpha(t, bg) matches Some(a) ==> {
            &&& (channel_alpha(t.r as int, bg.r as int) matches Some(x) ==> alpha_at_least(a, x))
            &&& (channel_alpha(t.g as int, bg.g as int) matches Some(x) ==> alpha_at_least(a, x))
            &&& (channel_alpha(t.b as int, bg.b as int) matches Some(x) ==> alpha_at_least(a, x))
        },
{
    let ar = channel_alpha(t.r as int, bg.r as int);
    let ag = channel_alpha(t.g as int, bg.g as int);
    let ab = channel_alpha(t.b as int, bg.b as int);
    lemma_larger_alpha(ar, ag);
    let m = larger_alpha(ar, ag);
    lemma_larger_alpha(m, ab);
    if let Some(a) = blend_alpha(t, bg) {
        if let Some(q) = m {
            if let Some(x) = ar {
                lemma_alpha_at_least_transitive(a, q, x);
            }
            if let Some(x) = ag {
                lemma_alpha_at_least_transitive(a, q, x);
            }
        }
    }
}

proof fn lemma_channel_round_trip(t: int, bg: int, n: int, d: int)
    requires
        0 <= t <= 255,
        0 <= bg <= 255,
        0 < n <= d <= 255,
        channel_alpha(t, bg) matches Some(x) ==> alpha_at_least((n, d), x),
        unclamped_foreground(t, bg, n, d) >= 0,
    ensures
        blends_back_to(foreground_channel(t, bg, n, d), bg, t, n, d),
{
    let x = unclamped_foreground(t, bg, n, d);
    if t != bg && bg < 255 {
        assert(alpha_at_least((n, d), (t - bg, 255 - bg)));
        assert(d * (t - bg) <= n * (255 - bg)) by (nonlinear_arith)
            requires n * (255 - bg) >= (t - bg) * d;
    } else if t == bg {
        assert(d * (t - bg) == 0) by (nonlinear_arith)
            requires t == bg;
        assert(n * bg <= 255 * n) by (nonlinear_arith)
            requires 0 <= bg <= 255, n > 0;
    } else {
        assert(d * (t - bg) <= 0) by (nonlinear_arith)
            requires t <= bg, d > 0;
        assert(n * bg <= 255 * n) by (nonlinear_arith)
            requires 0 <= bg <= 255, n > 0;
    }
    assert(x <= 255 * n) by (nonlinear_arith)
        requires
            x == d * (t - bg) + n * bg,
            d * (t - bg) <= n * (255 - bg),
            n > 0;
    let q = round_div(x, n);
    assert(0 <= q <= 255 && 2 * n * q <= 2 * x + n && 2 * x + n < 2 * n * q + 2 * n) by (nonlinear_arith)
        requires
            q == (2 * x + n) / (2 * n),
            0 <= x <= 255 * n,
            n > 0;
    assert(foreground_channel(t, bg, n, d) == q);
    assert(q * n + bg * (d - n) - t * d == q * n - x) by (nonlinear_arith)
        requires x == d * (t - bg) + n * bg;
    assert(2 * n * q == 2 * (q * n)) by (nonlinear_arith);
}

/// No channel's exact foreground value is negative.
pub open spec fn no_channel_clamped(t: Color, bg: Color) -> bool {
    match blend_alpha(t, bg) {
        Some(a) => a.0 > 0 ==> {
            &&& unclamped_foreground(t.r as int, bg.r as int, a.0, a.1) >= 0
            &&& unclamped_foreground(t.g as int, bg.g as int, a.0, a.1) >= 0
            &&& unclamped_foreground(t.b as int, bg.b as int, a.0, a.1) >= 0
        },
        None => true,
    }
}

/// Drawing the colour derived by the reverse blend, with its exact alpha,
/// over the background it was derived against reproduces every channel of
/// the target to within one unit; where no positive alpha exists the target
/// itself is drawn. Left out: targets for which some channel's exact
/// foreground value is negative and so clamped to zero.
pub proof fn lemma_reverse_blend_round_trip(t: Color, bg: Color)
    requires
        no_channel_clamped(t, bg),
    ensures
        match blend_alpha(t, bg) {
            Some(a) => if a.0 > 0 {
                let f = reverse_blend(t, bg);
                &&& blends_back_to(f.r as int, bg.r as int, t.r as int, a.0, a.1)
                &&& blends_back_to(f.g as int, bg.g as int, t.g as int, a.0, a.1)
                &&& blends_back_to(f.b as int, bg.b as int, t.b as int, a.0, a.1)
            } else {
                reverse_blend(t, bg) == t
            },
            None => reverse_blend(t, bg) == t,
        },
{
    lemma_blend_alpha_dominates(t, bg);
    if let Some(a) = blend_alpha(t, bg) {
        if a.0 > 0 {
            lemma_channel_round_trip(t.r as int, bg.r as int, a.0, a.1);
            lemma_channel_round_trip(t.g as int, bg.g as int, a.0, a.1);
            lemma_channel_round_trip(t.b as int, bg.b as int, a.0, a.1);
        }
    }
}

/// A grey background below white: the same value `k < 255` in every channel.
pub open spec fn is_grey_background(bg: Color) -> bool {
    bg.r == bg.g && bg.g == bg.b && bg.r < 255
}

pub open spec fn max_channel(t: Color) -> int {
    max3(t.r as int, t.g as int, t.b as int)
}

proof fn lemma_blend_alpha_on_grey(t: Color, bg: Color)
    requires
        is_grey_background(bg),
        max_channel(t) > bg.r,
    ensures
        blend_alpha(t, bg) == Some((max_channel(t) - bg.r, 255 - bg.r as int)),
{
    let k = bg.r as int;
    let d = 255 - k;
    let r = t.r as int - k;
    let g = t.g as int - k;
    let b = t.b as int - k;
    lemma_compare_same_den(r, g, d);
    lemma_compare_same_den(g, r, d);
    lemma_compare_same_den(r, b, d);
    lemma_compare_same_den(b, r, d);
    lemma_compare_same_den(g, b, d);
    lemma_compare_same_den(b, g, d);
}

proof fn lemma_compare_same_den(a: int, b: int, d: int)
    requires
        d > 0,
    ensures
        a * d >= b * d <==> a >= b,
{
    assert(a * d >= b * d <==> a >= b) by (nonlinear_arith)
        requires d > 0;
}

proof fn lemma_foreground_of_max(hi: int, k: int)
    requires
        0 <= k < hi <= 255,
    ensures
        foreground_channel(hi, k, hi - k, 255 - k) == 255,
{
    let n = hi - k;
    let d = 255 - k;
    assert(unclamped_foreground(hi, k, n, d) == 255 * n) by (nonlinear_arith)
        requires n == hi - k, d == 255 - k;
    assert((2 * (255 * n) + n) / (2 * n) == 255) by (nonlinear_arith)
        requires n > 0;
}

proof fn lemma_foreground_below_max(c: int, hi: int, k: int)
    requires
        0 <= k < hi <= 255,
        0 <= c < hi,
    ensures
        foreground_channel(c, k, hi - k, 255 - k) <= 254,
{
    let n = hi - k;
    let d = 255 - k;
    let x = unclamped_foreground(c, k, n, d);
    assert(d * (c - k) <= d * (n - 1)) by (nonlinear_arith)
        requires d > 0, c - k <= n - 1;
    assert(d * (n - 1) == d * n - d) by (nonlinear_arith);
    assert(d * n + n * k == 255 * n) by (nonlinear_arith)
        requires d + k == 255;
    assert(x <= 254 * n);
    if x >= 0 {
        assert((2 * x + n) / (2 * n) <= 254) by (nonlinear_arith)
            requires 0 <= x <= 254 * n, n > 0;
    } else {
        assert((2 * x + n) / (2 * n) < 1) by (nonlinear_arith)
            requires x < 0, n > 0;
    }
}

proof fn lemma_no_positive_alpha(t: Color, bg: Color)
    requires
        is_grey_background(bg),
        max_channel(t) <= bg.r,
    ensures
        reverse_blend(t, bg) == t,
{
    let ar = channel_alpha(t.r as int, bg.r as int);
    let ag = channel_alpha(t.g as int, bg.g as int);
    let ab = channel_alpha(t.b as int, bg.b as int);
    lemma_larger_alpha(ar, ag);
    lemma_larger_alpha(larger_alpha(ar, ag), ab);
}

/// Where both drivers share one team colour, their stroke colours, drawn
/// over a grey background, differ too. Greys other than opaque white are
/// their own complement, so they are left out.
pub proof fn lemma_shared_color_resolves_apart(c1: Color, c2: Color, bg: Color)
    requires
        c1 == c2,
        !(c1.r == c1.g && c1.g == c1.b) || c1 == opaque_white(),
        is_grey_background(bg),
    ensures
        reverse_blend(c1, bg) != reverse_blend(disambiguated(c1, c2), bg),
{
    let k = bg.r as int;
    let alt = disambiguated(c1, c2);
    if c1 == opaque_white() {
        lemma_blend_alpha_on_grey(c1, bg);
        lemma_blend_alpha_on_grey(alt, bg);
        lemma_foreground_of_max(255, k);
        lemma_foreground_below_max(102, 255, k);
        assert(reverse_blend(c1, bg).r == 255);
        assert(reverse_blend(alt, bg).r <= 254);
    } else {
        let hi = max_channel(c1);
        assert(max_channel(alt) == hi);
        if hi > k {
            lemma_blend_alpha_on_grey(c1, bg);
            lemma_blend_alpha_on_grey(alt, bg);
            lemma_foreground_of_max(hi, k);
            if c1.r as int == hi {
                lemma_foreground_below_max(alt.r as int, hi, k);
                assert(reverse_blend(c1, bg).r != reverse_blend(alt, bg).r);
            } else if c1.g as int == hi {
                lemma_foreground_below_max(alt.g as int, hi, k);
                assert(reverse_blend(c1, bg).g != reverse_blend(alt, bg).g);
            } else {
                lemma_foreground_below_max(alt.b as int, hi, k);
                assert(reverse_blend(c1, bg).b != reverse_blend(alt, bg).b);
            }
        } else {
            lemma_no_positive_alpha(c1, bg);
            lemma_no_positive_alpha(alt, bg);
        }
    }
}

} // verus!
