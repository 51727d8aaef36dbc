//! The boolean stamp shape the walker carves with.
//!
//! A kernel of size `s` covers an `s x s` box.  Its texture is a solid
//! disk of radius `r = c * r_min + (1 - c) * r_max`, where `c` is the
//! circularity, `r_min = (s - 1) / 2` reaches the nearest border and
//! `r_max = sqrt(2) * r_min` reaches the corner: at full circularity the
//! stamp is a tight disk, at zero it is the whole square.
//!
//! The disk test `dist(cell, center) <= r` is decided exactly in integer
//! arithmetic.  With `h = s - 1`, doubled cell coordinates give
//! `4 * dist^2 = (2x - h)^2 + (2y - h)^2`, and with the circularity as the
//! fraction `c = k / K` the comparison multiplies out to
//! `A <= B * sqrt(2)` for integers `A`, `B` (`B >= 0`), which holds if and
//! only if `A <= 0` or `A^2 <= 2 * B^2`.

use vstd::prelude::*;

verus! {

/// Circularity is a fixed-point fraction of this scale.
pub const CIRC_SCALE: u32 = 100;

/// The largest accepted kernel size.
pub const MAX_KERNEL_SIZE: usize = 100;

/// Whether the cell `(x, y)` of a kernel of size `size` with circularity
/// `circ` (in units of `CIRC_SCALE`) lies inside the stamp disk.  This is
/// the exact integer form of `dist((x, y), center) <= r`.
pub open spec fn spec_kernel_cell_active(size: int, circ: int, x: int, y: int) -> bool {
    let h = size - 1;
    let sc = CIRC_SCALE as int;
    let d = (2 * x - h) * (2 * x - h) + (2 * y - h) * (2 * y - h);
    let a = d * sc * sc - (h * h) * (circ * circ + 2 * ((sc - circ) * (sc - circ)));
    let b = 2 * (h * h) * (circ * (sc - circ));
    a <= 0 || a * a <= 2 * (b * b)
}

/// The boolean stamp shape, its texture immutable after construction.
#[derive(Debug)]
pub struct Kernel {
    pub size: usize,
    pub circularity: u32,
    pub texture: Vec<bool>,
}

impl Kernel {
    /// The texture matches the disk predicate cell for cell.
    pub open spec fn wf(self) -> bool {
        &&& 1 <= self.size <= MAX_KERNEL_SIZE
        &&& self.circularity <= CIRC_SCALE
        &&& (self.size <= 3 ==> self.circularity == 0)
        &&& self.texture@.len() == self.size * self.size
        &&& forall|x: int, y: int|
            0 <= x < self.size && 0 <= y < self.size ==> self.texture@[x * self.size + y]
                == spec_kernel_cell_active(self.size as int, self.circularity as int, x, y)
    }

    /// Whether the texture cell `(x, y)` is part of the stamp.
    pub open spec fn spec_active(self, x: int, y: int) -> bool {
        self.texture@[x * self.size + y]
    }

    /// Build the stamp for a size and a circularity.  Small kernels
    /// (size at most 3) are forced to zero circularity: a pure square.
    pub fn new(size: usize, circularity: u32) -> (r: Kernel)
        requires
            1 <= size <= MAX_KERNEL_SIZE,
            circularity <= CIRC_SCALE,
        ensures
            r.wf(),
            r.size == size,
            r.circularity == if size <= 3 {
                0u32
            } else {
                circularity
            },
    {
        let circ: u32 = if size <= 3 {
            0
        } else {
            circularity
        };
        let mut texture: Vec<bool> = Vec::new();
        let mut x: usize = 0;
        while x < size
            invariant
                x <= size,
                1 <= size <= MAX_KERNEL_SIZE,
                circ <= CIRC_SCALE,
                texture@.len() == x * size,
                forall|a: int, b: int|
                    0 <= a < x && 0 <= b < size ==> texture@[a * size + b]
                        == spec_kernel_cell_active(size as int, circ as int, a, b),
            decreases size - x,
        {
            let mut y: usize = 0;
            while y < size
                invariant
                    x < size,
                    y <= size,
                    1 <= size <= MAX_KERNEL_SIZE,
                    circ <= CIRC_SCALE,
                    texture@.len() == x * size + y,
                    forall|a: int, b: int|
                        0 <= a < x && 0 <= b < size ==> texture@[a * size + b]
                            == spec_kernel_cell_active(size as int, circ as int, a, b),
                    forall|b: int|
                        0 <= b < y ==> texture@[x * size + b] == spec_kernel_cell_active(
                            size as int,
                            circ as int,
                            x as int,
                            b,
                        ),
            decreases size - y,
            {
                let active = kernel_cell_active(size, circ, x, y);
                texture.push(active);
                proof {
                    assert(x * size + y + 1 <= x * size + size == (x + 1) * size <= size * size)
                        by (nonlinear_arith)
                        requires
                            x < size,
                            y < size,
                    ;
                    assert forall|a: int, b: int|
                        0 <= a < x && 0 <= b < size implies texture@[a * size + b]
                        == spec_kernel_cell_active(size as int, circ as int, a, b) by {
                        assert(a * size + b < x * size + y) by (nonlinear_arith)
                            requires
                                0 <= a < x,
                                0 <= b < size,
                                0 <= y,
                        ;
                    }
                }
                y = y + 1;
            }
            proof {
                assert(x * size + size == (x + 1) * size) by (nonlinear_arith);
            }
            x = x + 1;
        }
        Kernel { size, circularity: circ, texture }
    }

    /// Whether the texture cell `(x, y)` is part of the stamp.
    pub fn active(&self, x: usize, y: usize) -> (r: bool)
        requires
            self.wf(),
            x < self.size,
            y < self.size,
        ensures
            r == self.spec_active(x as int, y as int),
    {
        proof {
            assert(x * self.size + y < self.size * self.size && x * self.size + y < 10000)
                by (nonlinear_arith)
                requires
                    x < self.size,
                    y < self.size,
                    self.size <= 100,
            ;
        }
        self.texture[x * self.size + y]
    }
}

/// Decide the exact disk test for one texture cell.
fn kernel_cell_active(size: usize, circ: u32, x: usize, y: usize) -> (r: bool)
    requires
        1 <= size <= MAX_KERNEL_SIZE,
        circ <= CIRC_SCALE,
        x < size,
        y < size,
    ensures
        r == spec_kernel_cell_active(size as int, circ as int, x as int, y as int),
{
    let h: i64 = (size - 1) as i64;
    let dx: i64 = 2 * (x as i64) - h;
    let dy: i64 = 2 * (y as i64) - h;
    assert(-99 <= dx <= 99 && -99 <= dy <= 99);
    assert(dx * dx <= 9801 && dy * dy <= 9801 && dx * dx >= 0 && dy * dy >= 0)
        by (nonlinear_arith)
        requires
            -99 <= dx <= 99,
            -99 <= dy <= 99,
    ;
    let d: i64 = dx * dx + dy * dy;
    let sc: i64 = CIRC_SCALE as i64;
    let c: i64 = circ as i64;
    let cr: i64 = sc - c;
    assert(0 <= c * c <= 10000 && 0 <= cr * cr <= 10000 && 0 <= c * cr <= 10000)
        by (nonlinear_arith)
        requires
            0 <= c <= 100,
            0 <= cr <= 100,
    ;
    let inner: i64 = c * c + 2 * (cr * cr);
    assert(0 <= h * h <= 9801) by (nonlinear_arith)
        requires
            0 <= h <= 99,
    ;
    let hh: i64 = h * h;
    assert(0 <= d * sc * sc <= 19602 * 10000 && 0 <= hh * inner <= 9801 * 30000)
        by (nonlinear_arith)
        requires
            0 <= d <= 19602,
            sc == 100,
            0 <= hh <= 9801,
            0 <= inner <= 30000,
    ;
    let a: i64 = d * sc * sc - hh * inner;
    assert(0 <= 2 * hh * (c * cr) <= 2 * 9801 * 10000) by (nonlinear_arith)
        requires
            0 <= hh <= 9801,
            0 <= c * cr <= 10000,
    ;
    let b: i64 = 2 * hh * (c * cr);
    if a <= 0 {
        true
    } else {
        assert(a * a <= 196020000 * 196020000 && 0 <= b * b <= 196020000 * 196020000)
            by (nonlinear_arith)
            requires
                0 <= a <= 196020000,
                0 <= b <= 196020000,
        ;
        a * a <= 2 * (b * b)
    }
}

} // verus!
