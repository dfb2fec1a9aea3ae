//! Pixel coordinates and distances.

use vstd::prelude::*;

verus! {

/// Quotient of `a` by a positive `b`, rounded toward zero.
pub open spec fn trunc_div(a: int, b: int) -> int
    recommends
        b > 0,
{
    if a >= 0 {
        a / b
    } else {
        -((-a) / b)
    }
}

/// Remainder that goes with [`trunc_div`]; it has the sign of `a`.
pub open spec fn trunc_rem(a: int, b: int) -> int
    recommends
        b > 0,
{
    if a >= 0 {
        a % b
    } else {
        -((-a) % b)
    }
}

/// Column and row of a linear pixel index in an image `img_width` pixels wide.
pub open spec fn index_coord(img_width: int, index: int) -> (int, int)
    recommends
        img_width > 0,
{
    (trunc_rem(index, img_width), trunc_div(index, img_width))
}

/// Whether `r` is the square root of `n`, rounded down.
pub open spec fn is_floor_sqrt(n: int, r: int) -> bool {
    0 <= r && r * r <= n < (r + 1) * (r + 1)
}

/// The square root of `n`, rounded down.
pub open spec fn floor_sqrt(n: int) -> int
    recommends
        n >= 0,
{
    choose|r: int| is_floor_sqrt(n, r)
}

/// Squared Euclidean distance between two points.
pub open spec fn squared_dist(first: (int, int), second: (int, int)) -> int {
    (first.0 - second.0) * (first.0 - second.0) + (first.1 - second.1) * (first.1 - second.1)
}

/// Euclidean distance between two points, rounded down to a whole pixel.
pub open spec fn whole_dist(first: (int, int), second: (int, int)) -> int {
    floor_sqrt(squared_dist(first, second))
}

/// Squares grow with their nonnegative base.
pub proof fn lemma_square_monotonic(a: int, b: int)
    requires
        0 <= a <= b,
    ensures
        a * a <= b * b,
{
    assert(a * a <= b * b) by (nonlinear_arith)
        requires
            0 <= a <= b,
    ;
}

/// A nonnegative number has exactly one rounded-down square root.
pub proof fn lemma_floor_sqrt_unique(n: int, r: int)
    requires
        is_floor_sqrt(n, r),
    ensures
        floor_sqrt(n) == r,
{
    let s = floor_sqrt(n);
    assert(is_floor_sqrt(n, s));
    if s < r {
        lemma_square_monotonic(s + 1, r);
    } else if r < s {
        lemma_square_monotonic(r + 1, s);
    }
}

/// Converts the index of a point in an image to a coordinate `(x, y)`.
///
/// Division rounds toward zero, so an index below zero yields a column at or
/// below zero.
pub fn img_index_to_coord(img_width: &i32, index: &i32) -> (coord: (i32, i32))
    requires
        *img_width > 0,
    ensures
        (coord.0 as int, coord.1 as int) == index_coord(*img_width as int, *index as int),
{
    (*index % *img_width, *index / *img_width)
}

/// Square root of `n`, rounded down.
pub fn isqrt(n: u128) -> (r: u64)
    ensures
        r as int == floor_sqrt(n as int),
        is_floor_sqrt(n as int, r as int),
{
    let mut lo: u128 = 0;
    let mut hi: u128 = 0x1_0000_0000_0000_0000;
    assert(hi * hi == 0x1_0000_0000_0000_0000_0000_0000_0000_0000int) by (nonlinear_arith)
        requires
            hi == 0x1_0000_0000_0000_0000,
    ;
    while hi - lo > 1
        invariant
            lo < hi <= 0x1_0000_0000_0000_0000,
            lo * lo <= n < hi * hi,
        decreases hi - lo,
    {
        let mid: u128 = lo + (hi - lo) / 2;
        assert(mid * mid < 0x1_0000_0000_0000_0000 * 0x1_0000_0000_0000_0000) by (nonlinear_arith)
            requires
                0 <= mid < 0x1_0000_0000_0000_0000,
        ;
        if mid * mid <= n {
            lo = mid;
        } else {
            hi = mid;
        }
    }
    proof {
        lemma_floor_sqrt_unique(n as int, lo as int);
    }
    lo as u64
}

/// Returns the distance between two points, rounded down to a whole pixel.
pub fn point_dist(first: &(i32, i32), second: &(i32, i32)) -> (d: u64)
    ensures
        d as int == whole_dist(
            (first.0 as int, first.1 as int),
            (second.0 as int, second.1 as int),
        ),
{
    let dx: i128 = first.0 as i128 - second.0 as i128;
    let dy: i128 = first.1 as i128 - second.1 as i128;
    assert(0 <= dx * dx <= 0x1_0000_0000 * 0x1_0000_0000) by (nonlinear_arith)
        requires
            -0x1_0000_0000 <= dx <= 0x1_0000_0000,
    ;
    assert(0 <= dy * dy <= 0x1_0000_0000 * 0x1_0000_0000) by (nonlinear_arith)
        requires
            -0x1_0000_0000 <= dy <= 0x1_0000_0000,
    ;
    let squared: i128 = dx * dx + dy * dy;
    isqrt(squared as u128)
}

} // verus!
