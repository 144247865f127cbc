//! Text-mode glyph coverage post-processing.

use vstd::prelude::*;

verus! {

/// First index of the window of radius `r` around `c` (clamped at 0).
pub open spec fn win_lo(c: int, r: int) -> int {
    if c >= r {
        c - r
    } else {
        0
    }
}

/// Last index of the window of radius `r` around `c` (clamped at `n - 1`).
pub open spec fn win_hi(c: int, r: int, n: int) -> int {
    if c + r < n - 1 {
        c + r
    } else {
        n - 1
    }
}

/// The pixel at row `y`, column `x` of a row-major image `w` pixels wide.
pub open spec fn px(img: Seq<u8>, w: int, y: int, x: int) -> u8 {
    img[y * w + x]
}

/// `m` is the largest coverage in the `(2r+1)×(2r+1)` square around `(y, x)`, clipped to the image.
pub open spec fn is_window_max(src: Seq<u8>, w: int, h: int, r: int, y: int, x: int, m: u8) -> bool {
    &&& forall|yy: int, xx: int|
        win_lo(y, r) <= yy <= win_hi(y, r, h) && win_lo(x, r) <= xx <= win_hi(x, r, w) ==> #[trigger] px(src, w, yy, xx) <= m
    &&& exists|yy: int, xx: int|
        win_lo(y, r) <= yy <= win_hi(y, r, h) && win_lo(x, r) <= xx <= win_hi(x, r, w) && #[trigger] px(src, w, yy, xx) == m
}

proof fn lemma_index_bound(w: int, h: int, y: int, x: int)
    requires
        0 <= y < h,
        0 <= x < w,
    ensures
        0 <= y * w + x < w * h,
        y * w + x + (w - x) <= w * h,
{
    assert(y * w + w <= h * w) by (nonlinear_arith)
        requires
            0 <= y < h,
            0 <= w,
    ;
    assert(0 <= y * w) by (nonlinear_arith)
        requires
            0 <= y,
            0 <= w,
    ;
    assert(h * w == w * h) by (nonlinear_arith);
}

/// `m` is the largest coverage of row `y` of `img` in the window of radius `r` around column `x`.
pub open spec fn is_row_max(img: Seq<u8>, w: int, r: int, y: int, x: int, m: u8) -> bool {
    &&& forall|k: int| win_lo(x, r) <= k <= win_hi(x, r, w) ==> #[trigger] px(img, w, y, k) <= m
    &&& exists|k: int| win_lo(x, r) <= k <= win_hi(x, r, w) && #[trigger] px(img, w, y, k) == m
}

/// `m` is the largest value of column `x` of `img` in the window of radius `r` around row `y`.
pub open spec fn is_col_max(img: Seq<u8>, w: int, h: int, r: int, y: int, x: int, m: u8) -> bool {
    &&& forall|k: int| win_lo(y, r) <= k <= win_hi(y, r, h) ==> #[trigger] px(img, w, k, x) <= m
    &&& exists|k: int| win_lo(y, r) <= k <= win_hi(y, r, h) && #[trigger] px(img, w, k, x) == m
}

proof fn lemma_distinct_index(w: int, y: int, x: int, yy: int, xx: int)
    requires
        0 <= xx < w,
        0 <= x < w,
        0 <= yy,
        yy < y || (yy == y && xx < x),
    ensures
        yy * w + xx != y * w + x,
{
    assert(yy * w + xx != y * w + x) by (nonlinear_arith)
        requires
            0 <= xx < w,
            0 <= x < w,
            yy < y || (yy == y && xx < x),
            0 <= yy,
    ;
}

/// Horizontal pass: each pixel becomes the maximum of its row window.
fn row_max_pass(src: &[u8], w: usize, h: usize, r: usize) -> (tmp: Vec<u8>)
    requires
        w > 0,
        h > 0,
        w * h <= src@.len(),
        w + r <= usize::MAX,
    ensures
        tmp@.len() == w * h,
        forall|yy: int, xx: int|
            0 <= yy < h && 0 <= xx < w ==> is_row_max(src@, w as int, r as int, yy, xx, #[trigger] px(tmp@, w as int, yy, xx)),
{
    let ghost wi = w as int;
    let ghost hi = h as int;
    let ghost ri = r as int;
    let sl = src.len();
    let n = w * h;
    let mut tmp: Vec<u8> = vec![0u8; n];
    let mut y: usize = 0;
    while y < h
        invariant
            wi == w && hi == h && ri == r && w > 0 && h > 0,
            sl == src@.len(),
            n == w * h,
            n <= sl,
            w + r <= usize::MAX,
            tmp@.len() == n,
            y <= h,
            forall|yy: int, xx: int|
                0 <= yy < y && 0 <= xx < w ==> is_row_max(src@, wi, ri, yy, xx, #[trigger] px(tmp@, wi, yy, xx)),
        decreases h - y,
    {
        let mut x: usize = 0;
        while x < w
            invariant
                wi == w && hi == h && ri == r && w > 0 && h > 0,
                sl == src@.len(),
                n == w * h,
                n <= sl,
                w + r <= usize::MAX,
                tmp@.len() == n,
                y < h,
                x <= w,
                forall|yy: int, xx: int|
                    (0 <= yy < y && 0 <= xx < w || yy == y && 0 <= xx < x) ==> is_row_max(src@, wi, ri, yy, xx, #[trigger] px(tmp@, wi, yy, xx)),
            decreases w - x,
        {
            let x0 = if x >= r { x - r } else { 0 };
            let x1 = if x + r < w - 1 { x + r } else { w - 1 };
            proof {
                lemma_index_bound(wi, hi, y as int, x1 as int);
                lemma_index_bound(wi, hi, y as int, x as int);
            }
            let base = y * w;
            let mut m = src[base + x0];
            let ghost mut wit: int = x0 as int;
            let mut k = x0 + 1;
            while k <= x1
                invariant
                    wi == w,
                    sl == src@.len(),
                    base == y * w,
                    x0 <= x1 < w,
                    base + x1 < sl,
                    x0 + 1 <= k <= x1 + 1,
                    x0 <= wit < k,
                    px(src@, wi, y as int, wit) == m,
                    forall|j: int| x0 <= j < k ==> #[trigger] px(src@, wi, y as int, j) <= m,
                decreases x1 + 1 - k,
            {
                let v = src[base + k];
                if v > m {
                    m = v;
                    proof {
                        wit = k as int;
                    }
                }
                k += 1;
            }
            assert(is_row_max(src@, wi, ri, y as int, x as int, m));
            let ghost before = tmp@;
            tmp.set(base + x, m);
            proof {
                assert forall|yy: int, xx: int|
                    (0 <= yy < y && 0 <= xx < w || yy == y && 0 <= xx < x + 1) implies is_row_max(src@, wi, ri, yy, xx, #[trigger] px(tmp@, wi, yy, xx)) by {
                    lemma_index_bound(wi, hi, yy, xx);
                    if yy != y || xx != x {
                        lemma_distinct_index(wi, y as int, x as int, yy, xx);
                        assert(px(tmp@, wi, yy, xx) == px(before, wi, yy, xx));
                    }
                }
            }
            x += 1;
        }
        y += 1;
    }
    tmp
}

/// Vertical pass: each pixel becomes the maximum of its column window.
fn col_max_pass(tmp: &Vec<u8>, w: usize, h: usize, r: usize) -> (out: Vec<u8>)
    requires
        w > 0,
        h > 0,
        tmp@.len() == w * h,
        h + r <= usize::MAX,
    ensures
        out@.len() == w * h,
        forall|yy: int, xx: int|
            0 <= yy < h && 0 <= xx < w ==> is_col_max(tmp@, w as int, h as int, r as int, yy, xx, #[trigger] px(out@, w as int, yy, xx)),
{
    let ghost wi = w as int;
    let ghost hi = h as int;
    let ghost ri = r as int;
    let n = tmp.len();
    let mut out: Vec<u8> = vec![0u8; n];
    let mut y: usize = 0;
    while y < h
        invariant
            wi == w && hi == h && ri == r && w > 0 && h > 0,
            n == w * h,
            h + r <= usize::MAX,
            tmp@.len() == n,
            out@.len() == n,
            y <= h,
            forall|yy: int, xx: int|
                0 <= yy < y && 0 <= xx < w ==> is_col_max(tmp@, wi, hi, ri, yy, xx, #[trigger] px(out@, wi, yy, xx)),
        decreases h - y,
    {
        let y0 = if y >= r { y - r } else { 0 };
        let y1 = if y + r < h - 1 { y + r } else { h - 1 };
        let mut x: usize = 0;
        while x < w
            invariant
                wi == w && hi == h && ri == r && w > 0 && h > 0,
                n == w * h,
                tmp@.len() == n,
                out@.len() == n,
                y < h,
                y0 == win_lo(y as int, ri),
                y1 == win_hi(y as int, ri, hi),
                x <= w,
                forall|yy: int, xx: int|
                    (0 <= yy < y && 0 <= xx < w || yy == y && 0 <= xx < x) ==> is_col_max(tmp@, wi, hi, ri, yy, xx, #[trigger] px(out@, wi, yy, xx)),
            decreases w - x,
        {
            proof {
                lemma_index_bound(wi, hi, y0 as int, x as int);
                lemma_index_bound(wi, hi, y as int, x as int);
            }
            let mut m = tmp[y0 * w + x];
            let ghost mut wit: int = y0 as int;
            let mut k = y0 + 1;
            while k <= y1
                invariant
                    wi == w && hi == h,
                    n == w * h,
                    tmp@.len() == n,
                    x < w,
                    y0 <= y1 < h,
                    y0 + 1 <= k <= y1 + 1,
                    y0 <= wit < k,
                    px(tmp@, wi, wit, x as int) == m,
                    forall|j: int| y0 <= j < k ==> #[trigger] px(tmp@, wi, j, x as int) <= m,
                decreases y1 + 1 - k,
            {
                proof {
                    lemma_index_bound(wi, hi, k as int, x as int);
                }
                let v = tmp[k * w + x];
                if v > m {
                    m = v;
                    proof {
                        wit = k as int;
                    }
                }
                k += 1;
            }
            assert(is_col_max(tmp@, wi, hi, ri, y as int, x as int, m));
            let ghost before = out@;
            out.set(y * w + x, m);
            proof {
                assert forall|yy: int, xx: int|
                    (0 <= yy < y && 0 <= xx < w || yy == y && 0 <= xx < x + 1) implies is_col_max(tmp@, wi, hi, ri, yy, xx, #[trigger] px(out@, wi, yy, xx)) by {
                    lemma_index_bound(wi, hi, yy, xx);
                    if yy != y || xx != x {
                        lemma_distinct_index(wi, y as int, x as int, yy, xx);
                        assert(px(out@, wi, yy, xx) == px(before, wi, yy, xx));
                    }
                }
            }
            x += 1;
        }
        y += 1;
    }
    out
}

/// Separable max filter (square dilation of radius `r`) that thickens glyph coverage.
pub fn dilate(src: &[u8], w: usize, h: usize, r: usize) -> (out: Vec<u8>)
    requires
        r == 0 || w == 0 || h == 0 || (w * h <= src@.len() && w + r <= usize::MAX && h + r <= usize::MAX),
    ensures
        r == 0 || w == 0 || h == 0 ==> out@ == src@,
        !(r == 0 || w == 0 || h == 0) ==> out@.len() == w * h && forall|y: int, x: int|
            0 <= y < h && 0 <= x < w ==> is_window_max(src@, w as int, h as int, r as int, y, x, #[trigger] px(out@, w as int, y, x)),
{
    if r == 0 || w == 0 || h == 0 {
        let mut v: Vec<u8> = Vec::new();
        let mut i: usize = 0;
        while i < src.len()
            invariant
                i <= src@.len(),
                v@ == src@.take(i as int),
            decreases src@.len() - i,
        {
            v.push(src[i]);
            assert(src@.take(i + 1) =~= src@.take(i as int).push(src@[i as int]));
            i += 1;
        }
        assert(src@.take(src@.len() as int) =~= src@);
        return v;
    }
    let ghost wi = w as int;
    let ghost hi = h as int;
    let ghost ri = r as int;
    let tmp = row_max_pass(src, w, h, r);
    let out = col_max_pass(&tmp, w, h, r);
    proof {
        assert forall|y: int, x: int| 0 <= y < h && 0 <= x < w implies is_window_max(src@, wi, hi, ri, y, x, #[trigger] px(out@, wi, y, x)) by {
            let m = px(out@, wi, y, x);
            assert(is_col_max(tmp@, wi, hi, ri, y, x, m));
            assert forall|yy: int, xx: int|
                win_lo(y, ri) <= yy <= win_hi(y, ri, hi) && win_lo(x, ri) <= xx <= win_hi(x, ri, wi) implies #[trigger] px(src@, wi, yy, xx) <= m by {
                assert(is_row_max(src@, wi, ri, yy, x, px(tmp@, wi, yy, x)));
                assert(px(src@, wi, yy, xx) <= px(tmp@, wi, yy, x));
                assert(px(tmp@, wi, yy, x) <= m);
            }
            let ky = choose|k: int| win_lo(y, ri) <= k <= win_hi(y, ri, hi) && #[trigger] px(tmp@, wi, k, x) == m;
            assert(is_row_max(src@, wi, ri, ky, x, px(tmp@, wi, ky, x)));
            let kx = choose|k: int| win_lo(x, ri) <= k <= win_hi(x, ri, wi) && #[trigger] px(src@, wi, ky, k) == px(tmp@, wi, ky, x);
            assert(px(src@, wi, ky, kx) == m);
        }
    }
    out
}

} // verus!
