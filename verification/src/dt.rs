//! Squared-Euclidean distance transform over a boolean mask.
//!
//! For every cell the transform yields the exact minimum of
//! `(x - a)^2 + (y - b)^2` over all source cells `(a, b)` of the mask
//! (`DT_FAR` where the mask is empty), computed separably: first the
//! nearest source along each column, then the best column for each cell.
//! The Euclidean distance itself is the square root of the returned
//! value; every consumer of the transform compares in squared space.

use vstd::prelude::*;
use vstd::pervasive::VecAdditionalExecFns;

use crate::map_grid::{lemma_cell_index_bound, MAX_MAP_DIM};

verus! {

/// The value a cell receives when no source cell exists.
pub const DT_FAR: u64 = 0xFFFF_FFFF_FFFF_FFFF;

/// The absolute value of an integer.
pub open spec fn spec_abs(t: int) -> int {
    if t >= 0 {
        t
    } else {
        -t
    }
}

/// The squared Euclidean distance between two cells.
pub open spec fn spec_sqd(x: int, y: int, a: int, b: int) -> int {
    (x - a) * (x - a) + (y - b) * (y - b)
}

/// The mask bit of cell `(x, y)` on a grid of column height `h`.
pub open spec fn spec_mask_at(s: Seq<bool>, h: int, x: int, y: int) -> bool {
    s[x * h + y]
}

/// The word of cell `(x, y)` on a grid of column height `h`.
pub open spec fn spec_at_u64(s: Seq<u64>, h: int, x: int, y: int) -> u64 {
    s[x * h + y]
}

/// `v` is the least distance from row `y` to a source row of column `x`
/// (`DT_FAR` when the column has no source).
pub open spec fn spec_col_min(mask: Seq<bool>, h: int, x: int, y: int, v: int) -> bool {
    &&& forall|b: int| 0 <= b < h && #[trigger] spec_mask_at(mask, h, x, b) ==> v <= spec_abs(y - b)
    &&& ((exists|b: int|
        0 <= b < h && #[trigger] spec_mask_at(mask, h, x, b) && v == spec_abs(y - b)) || (v
        == DT_FAR && forall|b: int| 0 <= b < h ==> !#[trigger] spec_mask_at(mask, h, x, b)))
}

/// `v` is the least squared distance from `(x, y)` to any source cell of
/// the mask (`DT_FAR` when the mask is empty).
pub open spec fn spec_is_min_dist(mask: Seq<bool>, w: int, h: int, x: int, y: int, v: int) -> bool {
    &&& forall|a: int, b: int|
        0 <= a < w && 0 <= b < h && #[trigger] spec_mask_at(mask, h, a, b) ==> v <= spec_sqd(
            x,
            y,
            a,
            b,
        )
    &&& ((exists|a: int, b: int|
        0 <= a < w && 0 <= b < h && #[trigger] spec_mask_at(mask, h, a, b) && v == spec_sqd(
            x,
            y,
            a,
            b,
        )) || (v == DT_FAR && forall|a: int, b: int|
        0 <= a < w && 0 <= b < h ==> !#[trigger] spec_mask_at(mask, h, a, b)))
}

/// Squaring preserves order on the non-negatives.
proof fn lemma_sq_mono(u: int, v: int)
    requires
        0 <= u <= v,
    ensures
        u * u <= v * v,
{
    assert(u * u <= v * v) by (nonlinear_arith)
        requires
            0 <= u <= v,
    ;
}

/// The square of a difference equals the square of its absolute value.
proof fn lemma_sq_abs(t: int)
    ensures
        spec_abs(t) * spec_abs(t) == t * t,
{
    assert((-t) * (-t) == t * t) by (nonlinear_arith);
}

/// The exact squared-Euclidean distance transform of a mask.
pub fn dt_sqr(mask: &Vec<bool>, width: usize, height: usize) -> (r: Vec<u64>)
    requires
        1 <= width <= MAX_MAP_DIM,
        1 <= height <= MAX_MAP_DIM,
        mask@.len() == width * height,
    ensures
        r@.len() == mask@.len(),
        forall|x: int, y: int|
            0 <= x < width && 0 <= y < height ==> spec_is_min_dist(
                mask@,
                width as int,
                height as int,
                x,
                y,
                #[trigger] spec_at_u64(r@, height as int, x, y) as int,
            ),
{
    let w = width;
    let h = height;
    proof {
        assert(w * h <= MAX_MAP_DIM * MAX_MAP_DIM) by (nonlinear_arith)
            requires
                w <= MAX_MAP_DIM,
                h <= MAX_MAP_DIM,
        ;
    }
    // Nearest source along each column.
    let mut ld: Vec<u64> = vec![DT_FAR; w * h];
    let mut x: usize = 0;
    while x < w
        invariant
            x <= w,
            1 <= w <= MAX_MAP_DIM,
            1 <= h <= MAX_MAP_DIM,
            mask@.len() == w * h,
            ld@.len() == w * h,
            forall|c: int, y: int|
                0 <= c < x && 0 <= y < h ==> spec_col_min(
                    mask@,
                    h as int,
                    c,
                    y,
                    #[trigger] spec_at_u64(ld@, h as int, c, y) as int,
                ),
            forall|c: int, y: int|
                0 <= c < x && 0 <= y < h ==> #[trigger] spec_at_u64(ld@, h as int, c, y) == DT_FAR
                    || spec_at_u64(ld@, h as int, c, y) < h,
        decreases w - x,
    {
        let ghost pre = ld@;
        // Forward sweep: distance to the nearest source at or above.
        let mut run: u64 = DT_FAR;
        let mut y: usize = 0;
        while y < h
            invariant
                y <= h,
                x < w,
                1 <= w <= MAX_MAP_DIM,
                1 <= h <= MAX_MAP_DIM,
                mask@.len() == w * h,
                ld@.len() == w * h,
                forall|i: int| 0 <= i < ld@.len() && !(x * h <= i < x * h + y) ==> ld@[i] == pre[i],
                run == DT_FAR || run < y,
                run == DT_FAR ==> forall|b: int|
                    0 <= b < y ==> !#[trigger] spec_mask_at(mask@, h as int, x as int, b),
                run != DT_FAR ==> y - 1 - run >= 0 && spec_mask_at(
                    mask@,
                    h as int,
                    x as int,
                    y - 1 - run,
                ) && forall|b: int|
                    y - 1 - run < b < y ==> !#[trigger] spec_mask_at(mask@, h as int, x as int, b),
                forall|q: int|
                    0 <= q < y ==> (#[trigger] spec_at_u64(ld@, h as int, x as int, q) == DT_FAR
                        || spec_at_u64(ld@, h as int, x as int, q) < h),
                forall|q: int|
                    0 <= q < y ==> ((#[trigger] spec_at_u64(ld@, h as int, x as int, q) as int
                        == DT_FAR as int && forall|b: int|
                        0 <= b <= q ==> !#[trigger] spec_mask_at(mask@, h as int, x as int, b)) || (
                    exists|b: int|
                        0 <= b <= q && #[trigger] spec_mask_at(mask@, h as int, x as int, b)
                            && spec_at_u64(ld@, h as int, x as int, q) as int == q - b && forall|
                            c: int,
                        | b < c <= q ==> !spec_mask_at(mask@, h as int, x as int, c))),
            decreases h - y,
        {
            proof {
                lemma_cell_index_bound(x as int, y as int, w as int, h as int);
            }
            if mask[x * h + y] {
                run = 0;
            } else if run != DT_FAR {
                run = run + 1;
            }
            let ghost lprev = ld@;
            ld.set(x * h + y, run);
            proof {
                let m = mask@;
                let hi = h as int;
                let xi = x as int;
                assert(spec_at_u64(ld@, hi, xi, y as int) == run);
                assert(spec_mask_at(m, hi, xi, y as int) == m[x * h + y]);
                assert forall|q: int| 0 <= q < y implies spec_at_u64(ld@, hi, xi, q)
                    == spec_at_u64(lprev, hi, xi, q) by {
                    lemma_cell_index_bound(xi, q, w as int, h as int);
                }
                assert forall|q: int| 0 <= q < y + 1 implies ((#[trigger] spec_at_u64(
                    ld@,
                    hi,
                    xi,
                    q,
                ) as int == DT_FAR as int && forall|b: int|
                    0 <= b <= q ==> !#[trigger] spec_mask_at(m, hi, xi, b)) || (exists|b: int|
                    0 <= b <= q && #[trigger] spec_mask_at(m, hi, xi, b) && spec_at_u64(
                        ld@,
                        hi,
                        xi,
                        q,
                    ) as int == q - b && forall|c: int| b < c <= q ==> !spec_mask_at(m, hi, xi, c)))
                    by {
                    if q < y {
                        if spec_at_u64(lprev, hi, xi, q) as int != DT_FAR as int {
                            let bw = choose|b: int|
                                0 <= b <= q && #[trigger] spec_mask_at(m, hi, xi, b)
                                    && spec_at_u64(lprev, hi, xi, q) as int == q - b && forall|
                                    c: int,
                                | b < c <= q ==> !spec_mask_at(m, hi, xi, c);
                            assert(0 <= bw <= q && spec_mask_at(m, hi, xi, bw) && spec_at_u64(
                                ld@,
                                hi,
                                xi,
                                q,
                            ) as int == q - bw && forall|c: int|
                                bw < c <= q ==> !spec_mask_at(m, hi, xi, c));
                        }
                    } else {
                        if run != DT_FAR {
                            let bq = y - (run as int);
                            assert(spec_mask_at(m, hi, xi, bq) && spec_at_u64(ld@, hi, xi, q) as int
                                == q - bq && forall|c: int|
                                bq < c <= q ==> !spec_mask_at(m, hi, xi, c));
                        }
                    }
                }
                assert forall|q: int| 0 <= q < y + 1 implies (#[trigger] spec_at_u64(ld@, hi, xi, q)
                    == DT_FAR || spec_at_u64(ld@, hi, xi, q) < h) by {
                }
            }
            y = y + 1;
        }
        // Backward sweep: fold in the nearest source at or below.
        let mut run2: u64 = DT_FAR;
        let mut yy: usize = h;
        while yy > 0
            invariant
                yy <= h,
                x < w,
                1 <= w <= MAX_MAP_DIM,
                1 <= h <= MAX_MAP_DIM,
                mask@.len() == w * h,
                ld@.len() == w * h,
                forall|i: int| 0 <= i < ld@.len() && !(x * h <= i < x * h + h) ==> ld@[i] == pre[i],
                run2 == DT_FAR || yy + run2 < h,
                run2 == DT_FAR ==> forall|b: int|
                    yy <= b < h ==> !#[trigger] spec_mask_at(mask@, h as int, x as int, b),
                run2 != DT_FAR ==> spec_mask_at(mask@, h as int, x as int, yy + run2) && forall|
                    b: int,
                |
                    yy <= b < yy + run2 ==> !#[trigger] spec_mask_at(mask@, h as int, x as int, b),
                forall|q: int|
                    yy <= q < h ==> spec_col_min(
                        mask@,
                        h as int,
                        x as int,
                        q,
                        #[trigger] spec_at_u64(ld@, h as int, x as int, q) as int,
                    ),
                forall|q: int|
                    yy <= q < h ==> (#[trigger] spec_at_u64(ld@, h as int, x as int, q) == DT_FAR
                        || spec_at_u64(ld@, h as int, x as int, q) < h),
                forall|q: int|
                    0 <= q < yy ==> ((#[trigger] spec_at_u64(ld@, h as int, x as int, q) as int
                        == DT_FAR as int && forall|b: int|
                        0 <= b <= q ==> !#[trigger] spec_mask_at(mask@, h as int, x as int, b)) || (
                    exists|b: int|
                        0 <= b <= q && #[trigger] spec_mask_at(mask@, h as int, x as int, b)
                            && spec_at_u64(ld@, h as int, x as int, q) as int == q - b && forall|
                            c: int,
                        | b < c <= q ==> !spec_mask_at(mask@, h as int, x as int, c))),
                forall|q: int|
                    0 <= q < yy ==> (#[trigger] spec_at_u64(ld@, h as int, x as int, q) == DT_FAR
                        || spec_at_u64(ld@, h as int, x as int, q) < h),
            decreases yy,
        {
            let y2 = yy - 1;
            proof {
                lemma_cell_index_bound(x as int, y2 as int, w as int, h as int);
            }
            if mask[x * h + y2] {
                run2 = 0;
            } else if run2 != DT_FAR {
                run2 = run2 + 1;
            }
            proof {
                assert(spec_mask_at(mask@, h as int, x as int, y2 as int) == mask@[x * h + y2]);
            }
            let cur = ld[x * h + y2];
            let ghost cur0 = cur as int;
            proof {
                assert(cur0 == spec_at_u64(ld@, h as int, x as int, y2 as int) as int);
            }
            let ghost lprev = ld@;
            if run2 != DT_FAR && (cur == DT_FAR || run2 < cur) {
                ld.set(x * h + y2, run2);
            }
            proof {
                assert forall|q: int| 0 <= q < h && q != y2 implies spec_at_u64(
                    ld@,
                    h as int,
                    x as int,
                    q,
                ) == spec_at_u64(lprev, h as int, x as int, q) by {
                    lemma_cell_index_bound(x as int, q, w as int, h as int);
                }
            }
            proof {
                let m = mask@;
                let hi = h as int;
                let xi = x as int;
                let q = y2 as int;
                let v = spec_at_u64(ld@, hi, xi, q) as int;
                let r2 = run2 as int;
                if run2 != DT_FAR {
                    // The nearest source at or above `q` sits at `q + r2`,
                    // with only empty rows in between.
                    assert(q + r2 < hi && spec_mask_at(m, hi, xi, q + r2));
                    assert forall|c: int| q <= c < q + r2 implies !spec_mask_at(m, hi, xi, c) by {
                        if c == q {
                        } else {
                            assert(yy <= c < yy + (r2 - 1));
                        }
                    }
                }
                // Lower bound: every source row is at least `v` away.
                assert forall|b: int|
                    0 <= b < hi && #[trigger] spec_mask_at(m, hi, xi, b) implies v <= spec_abs(
                    q - b,
                ) by {
                    if b <= q {
                        assert(cur0 != DT_FAR as int && cur0 <= q - b) by {
                            let bw = choose|bw: int|
                                0 <= bw <= q && #[trigger] spec_mask_at(m, hi, xi, bw) && cur0 == q
                                    - bw && forall|c: int|
                                    bw < c <= q ==> !spec_mask_at(m, hi, xi, c);
                            assert(b <= bw);
                        }
                        assert(v <= cur0);
                    } else {
                        assert(run2 != DT_FAR);
                        assert(b >= q + r2);
                        assert(v <= r2);
                    }
                }
                // Achieved or far.
                if v != DT_FAR as int {
                    if run2 != DT_FAR && (cur0 == DT_FAR as int || r2 < cur0) {
                        assert(spec_mask_at(m, hi, xi, q + r2));
                        assert(v == r2 && r2 == spec_abs(q - (q + r2)));
                    } else {
                        assert(v == cur0);
                        let bw = choose|bw: int|
                            0 <= bw <= q && #[trigger] spec_mask_at(m, hi, xi, bw) && cur0 == q - bw
                                && forall|c: int| bw < c <= q ==> !spec_mask_at(m, hi, xi, c);
                        assert(v == spec_abs(q - bw));
                    }
                }
                assert(spec_col_min(m, hi, xi, q, v));
                // Carry the finished rows along: their values are
                // untouched by this row's update.
                assert forall|q2: int| y2 <= q2 < h implies spec_col_min(
                    m,
                    hi,
                    xi,
                    q2,
                    #[trigger] spec_at_u64(ld@, hi, xi, q2) as int,
                ) && (spec_at_u64(ld@, hi, xi, q2) == DT_FAR || spec_at_u64(ld@, hi, xi, q2) < h)
                    by {
                    if q2 > y2 {
                        assert(spec_at_u64(ld@, hi, xi, q2) == spec_at_u64(lprev, hi, xi, q2));
                        assert(spec_col_min(m, hi, xi, q2, spec_at_u64(lprev, hi, xi, q2) as int));
                    } else {
                        assert(v == DT_FAR as int || v < h) by {
                            if v != DT_FAR as int {
                                if run2 != DT_FAR && (cur0 == DT_FAR as int || r2 < cur0) {
                                    assert(v == r2 && q + r2 < hi);
                                } else {
                                    assert(v == cur0);
                                    let bw = choose|bw: int|
                                        0 <= bw <= q && #[trigger] spec_mask_at(m, hi, xi, bw)
                                            && cur0 == q - bw && forall|c: int|
                                            bw < c <= q ==> !spec_mask_at(m, hi, xi, c);
                                    assert(cur0 == q - bw && q < hi);
                                }
                            }
                        }
                    }
                }
                // The rows still to be processed keep their forward
                // characterization.
                assert forall|q2: int| 0 <= q2 < y2 implies ((#[trigger] spec_at_u64(
                    ld@,
                    hi,
                    xi,
                    q2,
                ) as int == DT_FAR as int && forall|b: int|
                    0 <= b <= q2 ==> !#[trigger] spec_mask_at(m, hi, xi, b)) || (exists|b: int|
                    0 <= b <= q2 && #[trigger] spec_mask_at(m, hi, xi, b) && spec_at_u64(
                        ld@,
                        hi,
                        xi,
                        q2,
                    ) as int == q2 - b && forall|c: int|
                        b < c <= q2 ==> !spec_mask_at(m, hi, xi, c))) && (spec_at_u64(
                    ld@,
                    hi,
                    xi,
                    q2,
                ) == DT_FAR || spec_at_u64(ld@, hi, xi, q2) < h) by {
                    assert(spec_at_u64(ld@, hi, xi, q2) == spec_at_u64(lprev, hi, xi, q2));
                    if spec_at_u64(lprev, hi, xi, q2) as int != DT_FAR as int {
                        let bw = choose|b: int|
                            0 <= b <= q2 && #[trigger] spec_mask_at(m, hi, xi, b) && spec_at_u64(
                                lprev,
                                hi,
                                xi,
                                q2,
                            ) as int == q2 - b && forall|c: int|
                                b < c <= q2 ==> !spec_mask_at(m, hi, xi, c);
                        assert(0 <= bw <= q2 && spec_mask_at(m, hi, xi, bw) && spec_at_u64(
                            ld@,
                            hi,
                            xi,
                            q2,
                        ) as int == q2 - bw && forall|c: int|
                            bw < c <= q2 ==> !spec_mask_at(m, hi, xi, c));
                    }
                }
            }
            yy = y2;
        }
        proof {
            assert forall|c: int, y3: int| 0 <= c < x + 1 && 0 <= y3 < h implies spec_col_min(
                mask@,
                h as int,
                c,
                y3,
                #[trigger] spec_at_u64(ld@, h as int, c, y3) as int,
            ) && (spec_at_u64(ld@, h as int, c, y3) == DT_FAR || spec_at_u64(ld@, h as int, c, y3)
                < h) by {
                if c < x {
                    lemma_cell_index_bound(c, y3, w as int, h as int);
                    assert(ld@[c * h + y3] == pre[c * h + y3]) by {
                        assert((c + 1) * h <= x * h) by (nonlinear_arith)
                            requires
                                0 <= c < x,
                                0 < h,
                        ;
                        assert(c * h + y3 < (c + 1) * h) by (nonlinear_arith)
                            requires
                                0 <= y3 < h,
                        ;
                    }
                    assert(spec_at_u64(ld@, h as int, c, y3) == spec_at_u64(pre, h as int, c, y3));
                }
            }
        }
        x = x + 1;
    }
    // Best column for each cell.
    let mut out: Vec<u64> = vec![DT_FAR; w * h];
    let mut ox: usize = 0;
    while ox < w
        invariant
            ox <= w,
            1 <= w <= MAX_MAP_DIM,
            1 <= h <= MAX_MAP_DIM,
            mask@.len() == w * h,
            ld@.len() == w * h,
            out@.len() == w * h,
            forall|c: int, y: int|
                0 <= c < w && 0 <= y < h ==> spec_col_min(
                    mask@,
                    h as int,
                    c,
                    y,
                    #[trigger] spec_at_u64(ld@, h as int, c, y) as int,
                ),
            forall|c: int, y: int|
                0 <= c < w && 0 <= y < h ==> #[trigger] spec_at_u64(ld@, h as int, c, y) == DT_FAR
                    || spec_at_u64(ld@, h as int, c, y) < h,
            forall|x2: int, y: int|
                0 <= x2 < ox && 0 <= y < h ==> spec_is_min_dist(
                    mask@,
                    w as int,
                    h as int,
                    x2,
                    y,
                    #[trigger] spec_at_u64(out@, h as int, x2, y) as int,
                ),
        decreases w - ox,
    {
        let mut oy: usize = 0;
        while oy < h
            invariant
                ox < w,
                oy <= h,
                1 <= w <= MAX_MAP_DIM,
                1 <= h <= MAX_MAP_DIM,
                mask@.len() == w * h,
                ld@.len() == w * h,
                out@.len() == w * h,
                forall|c: int, y: int|
                    0 <= c < w && 0 <= y < h ==> spec_col_min(
                        mask@,
                        h as int,
                        c,
                        y,
                        #[trigger] spec_at_u64(ld@, h as int, c, y) as int,
                    ),
                forall|c: int, y: int|
                    0 <= c < w && 0 <= y < h ==> #[trigger] spec_at_u64(ld@, h as int, c, y)
                        == DT_FAR || spec_at_u64(ld@, h as int, c, y) < h,
                forall|x2: int, y: int|
                    0 <= x2 < ox && 0 <= y < h ==> spec_is_min_dist(
                        mask@,
                        w as int,
                        h as int,
                        x2,
                        y,
                        #[trigger] spec_at_u64(out@, h as int, x2, y) as int,
                    ),
                forall|y: int|
                    0 <= y < oy ==> spec_is_min_dist(
                        mask@,
                        w as int,
                        h as int,
                        ox as int,
                        y,
                        #[trigger] spec_at_u64(out@, h as int, ox as int, y) as int,
                    ),
            decreases h - oy,
        {
            let mut best: u64 = DT_FAR;
            let mut a: usize = 0;
            while a < w
                invariant
                    ox < w,
                    oy < h,
                    a <= w,
                    1 <= w <= MAX_MAP_DIM,
                    1 <= h <= MAX_MAP_DIM,
                    mask@.len() == w * h,
                    ld@.len() == w * h,
                    forall|c: int, y: int|
                        0 <= c < w && 0 <= y < h ==> spec_col_min(
                            mask@,
                            h as int,
                            c,
                            y,
                            #[trigger] spec_at_u64(ld@, h as int, c, y) as int,
                        ),
                    forall|c: int, y: int|
                        0 <= c < w && 0 <= y < h ==> #[trigger] spec_at_u64(ld@, h as int, c, y)
                            == DT_FAR || spec_at_u64(ld@, h as int, c, y) < h,
                    best == DT_FAR || best <= 200_000_000,
                    forall|c: int, b: int|
                        0 <= c < a && 0 <= b < h && #[trigger] spec_mask_at(mask@, h as int, c, b)
                            ==> best as int <= spec_sqd(ox as int, oy as int, c, b),
                    best != DT_FAR ==> exists|c: int, b: int|
                        0 <= c < a && 0 <= b < h && #[trigger] spec_mask_at(mask@, h as int, c, b)
                            && best as int == spec_sqd(ox as int, oy as int, c, b),
                    best == DT_FAR ==> forall|c: int, b: int|
                        0 <= c < a && 0 <= b < h ==> !#[trigger] spec_mask_at(
                            mask@,
                            h as int,
                            c,
                            b,
                        ),
                decreases w - a,
            {
                proof {
                    lemma_cell_index_bound(a as int, oy as int, w as int, h as int);
                }
                let l = ld[a * h + oy];
                proof {
                    assert(l == spec_at_u64(ld@, h as int, a as int, oy as int));
                }
                if l != DT_FAR {
                    let dx: u64 = if ox >= a {
                        (ox - a) as u64
                    } else {
                        (a - ox) as u64
                    };
                    proof {
                        assert(dx * dx <= 100_000_000 && l * l <= 100_000_000) by (nonlinear_arith)
                            requires
                                dx <= 10000,
                                l < 10000,
                        ;
                    }
                    let cand: u64 = dx * dx + l * l;
                    proof {
                        let m = mask@;
                        let hi = h as int;
                        let ai = a as int;
                        let oxi = ox as int;
                        let oyi = oy as int;
                        let li = l as int;
                        // The candidate is achieved by the witness row of
                        // this column, and bounds every source row of it.
                        let b0 = choose|b: int|
                            0 <= b < hi && #[trigger] spec_mask_at(m, hi, ai, b) && li == spec_abs(
                                oyi - b,
                            );
                        lemma_sq_abs(oyi - b0);
                        lemma_sq_abs(oxi - ai);
                        assert(cand as int == spec_sqd(oxi, oyi, ai, b0)) by (nonlinear_arith)
                            requires
                                cand as int == (dx as int) * (dx as int) + li * li,
                                dx as int == spec_abs(oxi - ai),
                                li == spec_abs(oyi - b0),
                                spec_abs(oyi - b0) * spec_abs(oyi - b0) == (oyi - b0) * (oyi - b0),
                                spec_abs(oxi - ai) * spec_abs(oxi - ai) == (oxi - ai) * (oxi - ai),
                                spec_sqd(oxi, oyi, ai, b0) == (oxi - ai) * (oxi - ai) + (oyi - b0)
                                    * (oyi - b0),
                        ;
                        assert forall|b: int|
                            0 <= b < hi && #[trigger] spec_mask_at(m, hi, ai, b) implies cand as int
                            <= spec_sqd(oxi, oyi, ai, b) by {
                            lemma_sq_mono(li, spec_abs(oyi - b));
                            lemma_sq_abs(oyi - b);
                            assert((dx as int) * (dx as int) == (oxi - ai) * (oxi - ai));
                        }
                    }
                    if cand < best {
                        best = cand;
                    }
                }
                a = a + 1;
            }
            proof {
                lemma_cell_index_bound(ox as int, oy as int, w as int, h as int);
            }
            let ghost obefore = out@;
            out.set(ox * h + oy, best);
            proof {
                let m = mask@;
                let wi = w as int;
                let hi = h as int;
                assert(spec_at_u64(out@, hi, ox as int, oy as int) == best);
                assert(spec_is_min_dist(m, wi, hi, ox as int, oy as int, best as int));
                assert forall|y: int| 0 <= y < oy + 1 implies spec_is_min_dist(
                    m,
                    wi,
                    hi,
                    ox as int,
                    y,
                    #[trigger] spec_at_u64(out@, hi, ox as int, y) as int,
                ) by {
                    if y < oy {
                        lemma_cell_index_bound(ox as int, y, wi, hi);
                        assert(spec_at_u64(out@, hi, ox as int, y) == spec_at_u64(
                            obefore,
                            hi,
                            ox as int,
                            y,
                        ));
                        assert(spec_is_min_dist(
                            m,
                            wi,
                            hi,
                            ox as int,
                            y,
                            spec_at_u64(obefore, hi, ox as int, y) as int,
                        ));
                    }
                }
                assert forall|x2: int, y: int| 0 <= x2 < ox && 0 <= y < h implies spec_is_min_dist(
                    m,
                    wi,
                    hi,
                    x2,
                    y,
                    #[trigger] spec_at_u64(out@, hi, x2, y) as int,
                ) by {
                    lemma_cell_index_bound(x2, y, wi, hi);
                    assert(x2 * h + y < ox * h + oy) by (nonlinear_arith)
                        requires
                            0 <= x2 < ox,
                            0 <= y < h,
                            0 <= oy,
                    ;
                    assert(spec_at_u64(out@, hi, x2, y) == spec_at_u64(obefore, hi, x2, y));
                    assert(spec_is_min_dist(
                        m,
                        wi,
                        hi,
                        x2,
                        y,
                        spec_at_u64(obefore, hi, x2, y) as int,
                    ));
                }
            }
            oy = oy + 1;
        }
        ox = ox + 1;
    }
    out
}

} // verus!
