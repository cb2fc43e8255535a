//! The "over" operator, the fade of history frames, and the two overlays.

use vstd::prelude::*;
use crate::canvas::{Canvas, Pixel, with_alpha};
use crate::color::Color;

verus! {

/// `n / d` rounded to the nearest integer, halves away from zero (`n >= 0`, `d > 0`).
pub open spec fn round_div(n: int, d: int) -> int {
    (2 * n + d) / (2 * d)
}

/// The denominator of the "over" operator, scaled by 255 * 255:
/// `255 * 255 * (s_a + d_a * (1 - s_a))` for alphas read as fractions of 255.
pub open spec fn over_alpha_scaled(da: int, sa: int) -> int {
    255 * sa + da * (255 - sa)
}

/// One color channel of `s` over `d`:
/// `(s_c * s_a + d_c * d_a * (1 - s_a)) / out_a`, or 0 where `out_a` is 0.
pub open spec fn over_channel(dc: int, sc: int, da: int, sa: int) -> int {
    let den = over_alpha_scaled(da, sa);
    if den == 0 {
        0
    } else {
        round_div(255 * sc * sa + dc * da * (255 - sa), den)
    }
}

/// Straight-alpha "over": source `s` composited onto destination `d`, each
/// channel rounded to the nearest byte.
pub open spec fn over(d: Pixel, s: Pixel) -> Pixel {
    Pixel {
        r: over_channel(d.r as int, s.r as int, d.a as int, s.a as int) as u8,
        g: over_channel(d.g as int, s.g as int, d.a as int, s.a as int) as u8,
        b: over_channel(d.b as int, s.b as int, d.a as int, s.a as int) as u8,
        a: round_div(over_alpha_scaled(d.a as int, s.a as int), 255) as u8,
    }
}

/// The fade weight of a history frame of age `age` (1 is the most recent) in a
/// window of `h` frames: `(h - age) / h`, clamped to `[0, 1]`, as numerator over `h`.
pub open spec fn fade_numerator(age: int, h: int) -> int {
    if age >= h {
        0
    } else if age <= 0 {
        h
    } else {
        h - age
    }
}

/// The alpha of the tint painted for a source alpha `sa`: `sa` times the fade
/// weight, rounded to the nearest byte.
pub open spec fn tint_alpha(sa: int, age: int, h: int) -> int {
    round_div(sa * fade_numerator(age, h), h)
}

/// A history pixel: where the tint has any alpha, the tint color is put over `d`.
pub open spec fn tinted(d: Pixel, s: Pixel, c: Color, age: int, h: int) -> Pixel {
    let ta = tint_alpha(s.a as int, age, h);
    if ta == 0 {
        d
    } else {
        over(d, with_alpha(c, ta as u8))
    }
}

/// A current-frame pixel: where the source has any alpha, `c` at full opacity
/// is put over `d`.
pub open spec fn highlighted(d: Pixel, s: Pixel, c: Color) -> Pixel {
    if s.a == 0 {
        d
    } else {
        over(d, with_alpha(c, 255))
    }
}

proof fn lemma_round_div_bound(n: int, d: int, m: int)
    requires
        0 <= n <= m * d,
        d > 0,
        m >= 0,
    ensures
        0 <= round_div(n, d) <= m,
{
    assert(2 * n + d < (2 * m + 2) * d) by (nonlinear_arith)
        requires
            0 <= n <= m * d,
            d > 0,
    ;
    assert((2 * n + d) / (2 * d) <= m) by (nonlinear_arith)
        requires
            0 <= 2 * n + d < (2 * m + 2) * d,
            d > 0,
    ;
    assert((2 * n + d) / (2 * d) >= 0) by (nonlinear_arith)
        requires
            0 <= 2 * n + d,
            d > 0,
    ;
}

proof fn lemma_over_bounds(dc: int, sc: int, da: int, sa: int)
    requires
        0 <= dc <= 255,
        0 <= sc <= 255,
        0 <= da <= 255,
        0 <= sa <= 255,
    ensures
        0 <= over_alpha_scaled(da, sa) <= 255 * 255,
        0 <= over_channel(dc, sc, da, sa) <= 255,
        0 <= round_div(over_alpha_scaled(da, sa), 255) <= 255,
{
    let den = over_alpha_scaled(da, sa);
    assert(0 <= den <= 255 * 255) by (nonlinear_arith)
        requires
            0 <= da <= 255,
            0 <= sa <= 255,
            den == 255 * sa + da * (255 - sa),
    ;
    if den > 0 {
        let num = 255 * sc * sa + dc * da * (255 - sa);
        assert(0 <= num <= 255 * den) by (nonlinear_arith)
            requires
                0 <= dc <= 255,
                0 <= sc <= 255,
                0 <= da <= 255,
                0 <= sa <= 255,
                den == 255 * sa + da * (255 - sa),
                num == 255 * sc * sa + dc * da * (255 - sa),
        ;
        lemma_round_div_bound(num, den, 255);
    }
    lemma_round_div_bound(den, 255, 255);
}

/// Fully opaque source paint replaces the destination.
pub proof fn lemma_over_opaque(d: Pixel, c: Color)
    ensures
        over(d, with_alpha(c, 255)) == with_alpha(c, 255),
{
    let da = d.a as int;
    assert(da * (255 - 255) == 0);
    assert(over_alpha_scaled(da, 255) == 255 * 255);
    assert((2 * 65025int + 255) / 510int == 255) by (nonlinear_arith);
    assert(round_div(65025int, 255int) == 255);
    assert forall|dc: int, sc: int| 0 <= sc <= 255 implies over_channel(dc, sc, da, 255) == sc by {
        assert(dc * da * (255 - 255) == 0);
        assert(255 * sc * 255 == sc * 65025int) by (nonlinear_arith);
        assert((2 * (sc * 65025int) + 65025int) / 130050int == sc) by (nonlinear_arith)
            requires
                0 <= sc <= 255,
        ;
    }
}

/// `s` over `d`, every channel rounded to the nearest byte.
pub fn blend_pixel(dst: &mut Pixel, src: Pixel)
    ensures
        *final(dst) == over(*old(dst), src),
{
    let d = *dst;
    proof {
        lemma_over_bounds(d.r as int, src.r as int, d.a as int, src.a as int);
        lemma_over_bounds(d.g as int, src.g as int, d.a as int, src.a as int);
        lemma_over_bounds(d.b as int, src.b as int, d.a as int, src.a as int);
    }
    let da = d.a as u64;
    let sa = src.a as u64;
    let den = 255 * sa + da * (255 - sa);
    let r = blend_channel(d.r, src.r, da, sa, den);
    let g = blend_channel(d.g, src.g, da, sa, den);
    let b = blend_channel(d.b, src.b, da, sa, den);
    let a = ((2 * den + 255) / 510) as u8;
    *dst = Pixel { r, g, b, a };
}

fn blend_channel(dc: u8, sc: u8, da: u64, sa: u64, den: u64) -> (r: u8)
    requires
        da <= 255,
        sa <= 255,
        den == over_alpha_scaled(da as int, sa as int),
    ensures
        r as int == over_channel(dc as int, sc as int, da as int, sa as int),
{
    proof {
        lemma_over_bounds(dc as int, sc as int, da as int, sa as int);
    }
    if den == 0 {
        0
    } else {
        let dcw = dc as u64;
        let scw = sc as u64;
        proof {
            assert(255 * scw * sa <= 255 * 255 * 255) by (nonlinear_arith)
                requires
                    scw <= 255,
                    sa <= 255,
            ;
            assert(dcw * da <= 255 * 255) by (nonlinear_arith)
                requires
                    dcw <= 255,
                    da <= 255,
            ;
            assert(dcw * da * (255 - sa) <= 255 * 255 * 255) by (nonlinear_arith)
                requires
                    dcw <= 255,
                    da <= 255,
                    sa <= 255,
            ;
        }
        let num = 255 * scw * sa + dcw * da * (255 - sa);
        ((2 * num + den) / (2 * den)) as u8
    }
}

/// The alpha of the history tint: `source_alpha * (h - age) / h`, clamped to
/// a weight in `[0, 1]`, rounded to the nearest byte.
pub fn fade_alpha(source_alpha: u8, age: usize, history_length: usize) -> (r: u8)
    requires
        history_length >= 1,
    ensures
        r as int == tint_alpha(source_alpha as int, age as int, history_length as int),
{
    let h = history_length as u128;
    let f: u128 = if age >= history_length {
        0
    } else if age == 0 {
        h
    } else {
        (history_length - age) as u128
    };
    let sa = source_alpha as u128;
    proof {
        assert(sa * f <= 255 * h) by (nonlinear_arith)
            requires
                sa <= 255,
                f <= h,
        ;
        lemma_round_div_bound(sa * f, h as int, 255);
    }
    ((2 * (sa * f) + h) / (2 * h)) as u8
}

/// Paints the tinted history frame `src` of age `age` onto `dst`.
pub fn overlay_tinted(dst: &mut Canvas, src: &Canvas, tint: Color, age: usize, history_length: usize)
    requires
        history_length >= 1,
        old(dst).pixels@.len() == src.pixels@.len(),
    ensures
        final(dst).width == old(dst).width,
        final(dst).height == old(dst).height,
        final(dst).pixels@.len() == old(dst).pixels@.len(),
        forall|p: int| 0 <= p < src.pixels@.len() ==> #[trigger] final(dst).pixels@[p] == tinted(
            old(dst).pixels@[p], src.pixels@[p], tint, age as int, history_length as int),
{
    let n = src.pixels.len();
    let mut i: usize = 0;
    while i < n
        invariant
            n == src.pixels@.len(),
            dst.pixels@.len() == n,
            dst.width == old(dst).width,
            dst.height == old(dst).height,
            history_length >= 1,
            i <= n,
            forall|p: int| 0 <= p < i ==> #[trigger] dst.pixels@[p] == tinted(
                old(dst).pixels@[p], src.pixels@[p], tint, age as int, history_length as int),
            forall|p: int| i <= p < n ==> #[trigger] dst.pixels@[p] == old(dst).pixels@[p],
        decreases n - i,
    {
        let ta = fade_alpha(src.pixels[i].a, age, history_length);
        if ta != 0 {
            let mut px = dst.pixels[i];
            blend_pixel(&mut px, Pixel::from_color(tint, ta));
            dst.pixels.set(i, px);
        }
        i = i + 1;
    }
}

/// Paints the current frame `src` onto `dst` in `color` at full opacity.
pub fn overlay_current(dst: &mut Canvas, src: &Canvas, color: Color)
    requires
        old(dst).pixels@.len() == src.pixels@.len(),
    ensures
        final(dst).width == old(dst).width,
        final(dst).height == old(dst).height,
        final(dst).pixels@.len() == old(dst).pixels@.len(),
        forall|p: int| 0 <= p < src.pixels@.len() ==> #[trigger] final(dst).pixels@[p] == highlighted(
            old(dst).pixels@[p], src.pixels@[p], color),
{
    let n = src.pixels.len();
    let mut i: usize = 0;
    while i < n
        invariant
            n == src.pixels@.len(),
            dst.pixels@.len() == n,
            dst.width == old(dst).width,
            dst.height == old(dst).height,
            i <= n,
            forall|p: int| 0 <= p < i ==> #[trigger] dst.pixels@[p] == highlighted(
                old(dst).pixels@[p], src.pixels@[p], color),
            forall|p: int| i <= p < n ==> #[trigger] dst.pixels@[p] == old(dst).pixels@[p],
        decreases n - i,
    {
        if src.pixels[i].a != 0 {
            let mut px = dst.pixels[i];
            blend_pixel(&mut px, Pixel::from_color(color, 255));
            dst.pixels.set(i, px);
        }
        i = i + 1;
    }
}

} // verus!

verus! {

/// In a window of `h` frames the most recent history frame has weight
/// `(h - 1) / h`; an older frame never weighs more than a newer one, nor is
/// its tint more opaque; and only the frame of age `h` weighs 0.
pub proof fn lemma_fade_by_recency(h: int, newer: int, older: int, sa: int)
    requires
        h >= 1,
        1 <= newer <= older <= h,
        0 <= sa <= 255,
    ensures
        fade_numerator(1, h) == h - 1,
        fade_numerator(newer, h) >= fade_numerator(older, h),
        tint_alpha(sa, newer, h) >= tint_alpha(sa, older, h),
        fade_numerator(older, h) == 0 <==> older == h,
{
    let fnew = fade_numerator(newer, h);
    let fold = fade_numerator(older, h);
    assert(sa * fnew >= sa * fold) by (nonlinear_arith)
        requires
            fnew >= fold,
            sa >= 0,
    ;
    assert((2 * (sa * fnew) + h) / (2 * h) >= (2 * (sa * fold) + h) / (2 * h)) by (nonlinear_arith)
        requires
            sa * fnew >= sa * fold,
            h >= 1,
    ;
}

} // verus!

verus! {

/// The luminance of a pixel scaled by 255 * 1000: `299 r + 587 g + 114 b`.
pub open spec fn luminance_scaled(s: Pixel) -> int {
    299 * s.r as int + 587 * s.g as int + 114 * s.b as int
}

/// A tint channel darkened by the source's luminance, rounded down.
pub open spec fn luminance_channel(c: int, s: Pixel) -> int {
    c * luminance_scaled(s) / 255000
}

/// `src_c` over `dst_c` with opacity `ba / 255`, rounded down.
pub open spec fn mix(src_c: int, dst_c: int, ba: int) -> int {
    (src_c * ba + dst_c * (255 - ba)) / 255
}

/// A pixel of the luminance-weighted tint: where the source has any alpha,
/// the tint, darkened by the source's luminance, is mixed onto `d` with
/// opacity `source alpha * alpha / 255`; the result is opaque.
pub open spec fn luminance_tinted(d: Pixel, s: Pixel, c: Color, alpha: u8) -> Pixel {
    let ba = s.a as int * alpha as int / 255;
    if s.a == 0 || ba == 0 {
        d
    } else {
        Pixel {
            r: mix(luminance_channel(c.r as int, s), d.r as int, ba) as u8,
            g: mix(luminance_channel(c.g as int, s), d.g as int, ba) as u8,
            b: mix(luminance_channel(c.b as int, s), d.b as int, ba) as u8,
            a: 255,
        }
    }
}

fn luminance_tint_channel(c: u8, lum: u64) -> (r: u64)
    requires
        lum <= 255000,
    ensures
        r == c as int * lum as int / 255000,
        r <= 255,
{
    let cw = c as u64;
    proof {
        assert(cw * lum <= 255 * 255000) by (nonlinear_arith)
            requires
                cw <= 255,
                lum <= 255000,
        ;
        assert(cw * lum / 255000 <= 255) by (nonlinear_arith)
            requires
                cw * lum <= 255 * 255000,
        ;
    }
    cw * lum / 255000
}

fn mix_channel(sc: u64, dc: u8, ba: u64) -> (r: u8)
    requires
        sc <= 255,
        ba <= 255,
    ensures
        r as int == mix(sc as int, dc as int, ba as int),
{
    let dw = dc as u64;
    proof {
        assert(sc * ba + dw * (255 - ba) <= 255 * 255) by (nonlinear_arith)
            requires
                sc <= 255,
                dw <= 255,
                ba <= 255,
        ;
        assert((sc * ba + dw * (255 - ba)) / 255 <= 255) by (nonlinear_arith)
            requires
                sc * ba + dw * (255 - ba) <= 255 * 255,
        ;
    }
    ((sc * ba + dw * (255 - ba)) / 255) as u8
}

/// Paints `src` onto `dst` in the luminance-weighted mode: each visible
/// source pixel paints the tint darkened by its luminance, with opacity
/// `source alpha * alpha / 255`. This is a separate composition mode; the
/// frame compositor uses [`overlay_tinted`].
pub fn overlay_luminance(dst: &mut Canvas, src: &Canvas, tint: Color, alpha: u8)
    requires
        old(dst).pixels@.len() == src.pixels@.len(),
    ensures
        final(dst).width == old(dst).width,
        final(dst).height == old(dst).height,
        final(dst).pixels@.len() == old(dst).pixels@.len(),
        forall|p: int| 0 <= p < src.pixels@.len() ==> #[trigger] final(dst).pixels@[p] == luminance_tinted(
            old(dst).pixels@[p], src.pixels@[p], tint, alpha),
{
    let n = src.pixels.len();
    let mut i: usize = 0;
    while i < n
        invariant
            n == src.pixels@.len(),
            dst.pixels@.len() == n,
            dst.width == old(dst).width,
            dst.height == old(dst).height,
            i <= n,
            forall|p: int| 0 <= p < i ==> #[trigger] dst.pixels@[p] == luminance_tinted(
                old(dst).pixels@[p], src.pixels@[p], tint, alpha),
            forall|p: int| i <= p < n ==> #[trigger] dst.pixels@[p] == old(dst).pixels@[p],
        decreases n - i,
    {
        let s = src.pixels[i];
        let sa = s.a as u64;
        proof {
            assert(sa * (alpha as u64) <= 255 * 255) by (nonlinear_arith)
                requires
                    sa <= 255,
                    alpha <= 255,
            ;
            assert(sa * (alpha as u64) / 255 <= 255) by (nonlinear_arith)
                requires
                    sa * (alpha as u64) <= 255 * 255,
            ;
        }
        let ba = sa * (alpha as u64) / 255;
        if s.a != 0 && ba != 0 {
            let lum = 299 * (s.r as u64) + 587 * (s.g as u64) + 114 * (s.b as u64);
            let d = dst.pixels[i];
            let px = Pixel {
                r: mix_channel(luminance_tint_channel(tint.r, lum), d.r, ba),
                g: mix_channel(luminance_tint_channel(tint.g, lum), d.g, ba),
                b: mix_channel(luminance_tint_channel(tint.b, lum), d.b, ba),
                a: 255,
            };
            dst.pixels.set(i, px);
        }
        i = i + 1;
    }
}

} // verus!
