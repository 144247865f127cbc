//! Prototype loop pattern (runtime / Web). The wire buffer is logical RGB (R, G, B order).

use vstd::prelude::*;

verus! {

/// LEDs per data line of the prototype layout.
pub const LEDS_PER_LINE: usize = 45;

/// Integer HSV → RGB (hue in 43-step regions, 8-bit saturation and value).
pub open spec fn spec_hsv_to_rgb(h: u8, s: u8, v: u8) -> (u8, u8, u8) {
    if s == 0 {
        (v, v, v)
    } else {
        let region = h / 43;
        let rem = (h % 43) * 6;
        let p = (v * (255 - s) / 255) as u8;
        let q = (v * (255 - (s * rem / 255)) / 255) as u8;
        let t = (v * (255 - (s * (255 - rem) / 255)) / 255) as u8;
        if region == 0 {
            (v, t, p)
        } else if region == 1 {
            (q, v, p)
        } else if region == 2 {
            (p, v, t)
        } else if region == 3 {
            (p, q, v)
        } else if region == 4 {
            (t, p, v)
        } else {
            (v, p, q)
        }
    }
}

proof fn lemma_scale_le(v: int, k: int)
    requires
        0 <= v <= 255,
        0 <= k <= 255,
    ensures
        0 <= v * k / 255 <= v,
        v * k <= 65025,
{
    assert(0 <= v * k <= v * 255) by (nonlinear_arith)
        requires
            0 <= v <= 255,
            0 <= k <= 255,
    ;
    assert(v * 255 / 255 == v);
    assert(v * k / 255 <= v * 255 / 255) by (nonlinear_arith)
        requires
            0 <= v * k <= v * 255,
    ;
    assert(v * 255 <= 65025) by (nonlinear_arith)
        requires
            0 <= v <= 255,
    ;
}

pub fn hsv_to_rgb(h: u8, s: u8, v: u8) -> (r: (u8, u8, u8))
    ensures
        r == spec_hsv_to_rgb(h, s, v),
        r.0 <= v && r.1 <= v && r.2 <= v,
{
    if s == 0 {
        return (v, v, v);
    }
    let region = h / 43;
    let remainder = (h % 43) as u16 * 6;
    proof {
        lemma_scale_le(v as int, 255 - s);
        lemma_scale_le(s as int, remainder as int);
        lemma_scale_le(s as int, 255 - remainder);
        lemma_scale_le(v as int, 255 - (s * remainder / 255));
        lemma_scale_le(v as int, 255 - (s * (255 - remainder) / 255));
    }
    let p = (v as u16 * (255 - s as u16) / 255) as u8;
    let q = (v as u16 * (255 - (s as u16 * remainder / 255)) / 255) as u8;
    let t = (v as u16 * (255 - (s as u16 * (255 - remainder) / 255)) / 255) as u8;
    match region {
        0 => (v, t, p),
        1 => (q, v, p),
        2 => (p, v, t),
        3 => (p, q, v),
        4 => (t, p, v),
        _ => (v, p, q),
    }
}

/// Position of hue `h` within its 43-step region of the wheel, scaled to `0..=252`.
pub open spec fn hue_offset(h: u8) -> int {
    (h % 43) * 6
}

/// The weakest channel of a colour of saturation `s` and value `v`.
pub open spec fn hsv_floor(s: u8, v: u8) -> int {
    v * (255 - s) / 255
}

/// The channel that climbs from the floor towards `v` as the offset `f` grows.
pub open spec fn hsv_rising(s: u8, v: u8, f: int) -> int {
    v * (255 - s * (255 - f) / 255) / 255
}

/// The channel that falls from `v` towards the floor as the offset `f` grows.
pub open spec fn hsv_falling(s: u8, v: u8, f: int) -> int {
    v * (255 - s * f / 255) / 255
}

proof fn lemma_hsv_parts_in_range(s: u8, v: u8, f: int)
    requires
        0 <= f <= 255,
    ensures
        0 <= hsv_floor(s, v) <= v,
        0 <= hsv_rising(s, v, f) <= v,
        0 <= hsv_falling(s, v, f) <= v,
{
    lemma_scale_le(v as int, 255 - s);
    lemma_scale_le(s as int, f);
    lemma_scale_le(s as int, 255 - f);
    lemma_scale_le(v as int, 255 - s * f / 255);
    lemma_scale_le(v as int, 255 - s * (255 - f) / 255);
}

/// Colour law: a colour without saturation is the grey of its value, whatever the hue.
pub proof fn lemma_hsv_grey(h: u8, v: u8)
    ensures
        spec_hsv_to_rgb(h, 0, v) == (v, v, v),
{
}

/// Colour law: the standard hue wheel. Over each sixth of the hue range one channel is
/// at the value `v`, one at the floor, and the third rises or falls with the hue:
/// red to yellow (green rises), yellow to green (red falls), green to cyan (blue rises),
/// cyan to blue (green falls), blue to magenta (red rises), magenta to red (blue falls).
pub proof fn lemma_hsv_hue_wheel(h: u8, s: u8, v: u8)
    requires
        s > 0,
    ensures
        ({
            let c = spec_hsv_to_rgb(h, s, v);
            let f = hue_offset(h);
            let lo = hsv_floor(s, v);
            &&& h < 43 ==> c.0 == v && c.1 == hsv_rising(s, v, f) && c.2 == lo
            &&& 43 <= h < 86 ==> c.0 == hsv_falling(s, v, f) && c.1 == v && c.2 == lo
            &&& 86 <= h < 129 ==> c.0 == lo && c.1 == v && c.2 == hsv_rising(s, v, f)
            &&& 129 <= h < 172 ==> c.0 == lo && c.1 == hsv_falling(s, v, f) && c.2 == v
            &&& 172 <= h < 215 ==> c.0 == hsv_rising(s, v, f) && c.1 == lo && c.2 == v
            &&& 215 <= h ==> c.0 == v && c.1 == lo && c.2 == hsv_falling(s, v, f)
        }),
{
    lemma_hsv_parts_in_range(s, v, hue_offset(h));
}

/// Colour law: every channel lies between the floor and the value.
pub proof fn lemma_hsv_channels_bounded(s: u8, v: u8, f: int)
    requires
        0 <= f <= 255,
    ensures
        hsv_floor(s, v) <= hsv_rising(s, v, f) <= v,
        hsv_floor(s, v) <= hsv_falling(s, v, f) <= v,
{
    lemma_hsv_parts_in_range(s, v, f);
    let a = 255 - f;
    assert(s * a / 255 <= s) by (nonlinear_arith)
        requires
            0 <= a <= 255,
            0 <= s <= 255,
    ;
    assert(s * f / 255 <= s) by (nonlinear_arith)
        requires
            0 <= f <= 255,
            0 <= s <= 255,
    ;
    let k1 = 255 - s * a / 255;
    let k2 = 255 - s * f / 255;
    assert(v * (255 - s) / 255 <= v * k1 / 255) by (nonlinear_arith)
        requires
            255 - s <= k1,
            0 <= v,
    ;
    assert(v * (255 - s) / 255 <= v * k2 / 255) by (nonlinear_arith)
        requires
            255 - s <= k2,
            0 <= v,
    ;
}

/// Colour law: the rising channel never drops and the falling channel never climbs as
/// the offset within a region grows.
pub proof fn lemma_hsv_offset_monotone(s: u8, v: u8, f1: int, f2: int)
    requires
        0 <= f1 <= f2 <= 255,
    ensures
        hsv_rising(s, v, f1) <= hsv_rising(s, v, f2),
        hsv_falling(s, v, f2) <= hsv_falling(s, v, f1),
{
    let a1 = 255 - f1;
    let a2 = 255 - f2;
    assert(s * a2 / 255 <= s * a1 / 255) by (nonlinear_arith)
        requires
            0 <= a2 <= a1,
            0 <= s,
    ;
    assert(s * f1 / 255 <= s * f2 / 255) by (nonlinear_arith)
        requires
            0 <= f1 <= f2,
            0 <= s,
    ;
    let r1 = 255 - s * a1 / 255;
    let r2 = 255 - s * a2 / 255;
    let d1 = 255 - s * f1 / 255;
    let d2 = 255 - s * f2 / 255;
    assert(v * r1 / 255 <= v * r2 / 255) by (nonlinear_arith)
        requires
            r1 <= r2,
            0 <= v,
    ;
    assert(v * d2 / 255 <= v * d1 / 255) by (nonlinear_arith)
        requires
            d2 <= d1,
            0 <= v,
    ;
}

/// Colour law: within each sixth of the wheel the changing channel moves the way the
/// wheel turns (green rises from red to yellow, red falls to green, blue rises to cyan,
/// green falls to blue, red rises to magenta, blue falls back to red).
pub proof fn lemma_hsv_turns_with_hue(h1: u8, h2: u8, s: u8, v: u8)
    requires
        h1 <= h2,
    ensures
        ({
            let c1 = spec_hsv_to_rgb(h1, s, v);
            let c2 = spec_hsv_to_rgb(h2, s, v);
            &&& h2 < 43 ==> c1.1 <= c2.1
            &&& 43 <= h1 && h2 < 86 ==> c2.0 <= c1.0
            &&& 86 <= h1 && h2 < 129 ==> c1.2 <= c2.2
            &&& 129 <= h1 && h2 < 172 ==> c2.1 <= c1.1
            &&& 172 <= h1 && h2 < 215 ==> c1.0 <= c2.0
            &&& 215 <= h1 ==> c2.2 <= c1.2
        }),
{
    if s > 0 {
        lemma_hsv_hue_wheel(h1, s, v);
        lemma_hsv_hue_wheel(h2, s, v);
        if h1 / 43 == h2 / 43 {
            lemma_hsv_offset_monotone(s, v, hue_offset(h1), hue_offset(h2));
        }
    }
}

/// Sum whose low byte is the hue of LED `g` at time `t_ms`.
pub open spec fn loop_hue_sum(t_ms: u32, g: int) -> int {
    t_ms / 8 + ((g / 45) as u32) * 40 + (g % 45) * 2
}

/// Hue of LED `g` at time `t_ms`: a rainbow drifting over time, 40 steps per line and 2
/// per LED within a line.
pub open spec fn loop_hue(t_ms: u32, g: int) -> u8 {
    (loop_hue_sum(t_ms, g) % 256) as u8
}

/// Fills the first `led_count` RGB triples of `rgb` with the loop pattern at `t_ms`.
pub fn fill_loop_rgb(led_count: usize, t_ms: u32, rgb: &mut [u8])
    requires
        led_count * 3 <= old(rgb)@.len(),
        forall|g: int| 0 <= g < led_count ==> #[trigger] loop_hue_sum(t_ms, g) <= u32::MAX,
    ensures
        final(rgb)@.len() == old(rgb)@.len(),
        forall|g: int| 0 <= g < led_count ==> {
            let c = #[trigger] spec_hsv_to_rgb(loop_hue(t_ms, g), 220, 180);
            &&& final(rgb)@[3 * g] == c.0
            &&& final(rgb)@[3 * g + 1] == c.1
            &&& final(rgb)@[3 * g + 2] == c.2
        },
        forall|k: int| led_count * 3 <= k < old(rgb)@.len() ==> final(rgb)@[k] == old(rgb)@[k],
{
    let n = rgb.len();
    let mut g: usize = 0;
    while g < led_count
        invariant
            n == rgb@.len(),
            g <= led_count,
            led_count * 3 <= rgb@.len() == old(rgb)@.len(),
            forall|x: int| 0 <= x < led_count ==> #[trigger] loop_hue_sum(t_ms, x) <= u32::MAX,
            forall|x: int| 0 <= x < g ==> {
                let c = #[trigger] spec_hsv_to_rgb(loop_hue(t_ms, x), 220, 180);
                &&& rgb@[3 * x] == c.0
                &&& rgb@[3 * x + 1] == c.1
                &&& rgb@[3 * x + 2] == c.2
            },
            forall|k: int| 3 * g <= k < old(rgb)@.len() ==> rgb@[k] == old(rgb)@[k],
        decreases led_count - g,
    {
        let line = g / LEDS_PER_LINE;
        let i = g % LEDS_PER_LINE;
        assert(loop_hue_sum(t_ms, g as int) <= u32::MAX);
        assert(t_ms / 8 + (line as u32) * 40 + (i as u32) * 2 == loop_hue_sum(t_ms, g as int));
        let hue = ((t_ms / 8 + (line as u32) * 40 + (i as u32) * 2) % 256) as u8;
        let (r, gr, b) = hsv_to_rgb(hue, 220, 180);
        assert(g * 3 + 3 <= led_count * 3);
        let o = g * 3;
        rgb[o] = r;
        rgb[o + 1] = gr;
        rgb[o + 2] = b;
        g += 1;
    }
}

} // verus!
