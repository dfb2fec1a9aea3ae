//! The ray caster: the pixels on a straight line from the bottom centre of a
//! frame to its edge.

use crate::mask::valid_size;
use crate::tangent::{
    is_steering_angle, lemma_tangent_bounds, tangent_magnitude, tangent_of, Angle, TANGENT_ONE,
};
use vstd::prelude::*;

verus! {

/// Tangent of the angle's size, whichever side it is on, in units of 2^-58.
pub open spec fn slope(angle: int) -> int {
    if angle >= 0 {
        tangent_magnitude(angle)
    } else {
        tangent_magnitude(-angle)
    }
}

/// Whether a ray at `angle` has left a frame whose half-width is `center`
/// when it is `rows` rows above the reference point: its distance from the
/// centre column, `rows` times the tangent, then exceeds the half-width.
pub open spec fn leaves_frame(center: int, angle: int, rows: int) -> bool {
    rows * slope(angle) > center * TANGENT_ONE
}

/// Horizontal offset from the centre column, in whole pixels rounded toward
/// zero, of a ray at `angle` that is `rows` rows above the reference point.
pub open spec fn ray_offset(angle: int, rows: int) -> int {
    let reach = (rows * slope(angle)) / (TANGENT_ONE as int);
    if angle >= 0 {
        reach
    } else {
        -reach
    }
}

/// Number of rows, counted upward from row `start` above the bottom, that
/// the ray crosses before it leaves the frame or reaches the top.
pub open spec fn ray_len_from(center: int, height: int, angle: int, start: int) -> nat
    decreases height - start,
{
    if start >= height || leaves_frame(center, angle, start + 1) {
        0
    } else {
        1 + ray_len_from(center, height, angle, start + 1)
    }
}

/// Number of points on the ray cast at `angle` through a frame of the given
/// size.
pub open spec fn ray_len(width: int, height: int, angle: int) -> nat {
    ray_len_from(width / 2, height, angle, 0)
}

/// Linear index of point number `k` of the ray, counted from the bottom row:
/// it lies on row `height - 1 - k`.
pub open spec fn ray_point(width: int, height: int, angle: int, k: int) -> int {
    (height - 1 - k) * width - width / 2 + ray_offset(angle, k + 1)
}

/// The ray cast at `angle` through a frame of the given size: one point for
/// each row from the bottom up, until the ray leaves the frame sideways.
pub open spec fn ray_points(width: int, height: int, angle: int) -> Seq<int> {
    Seq::new(ray_len(width, height, angle), |k: int| ray_point(width, height, angle, k))
}

/// A ray that has not left the frame after `upto` rows has that many points
/// and those that the rest of the way adds.
pub proof fn lemma_ray_len_split(center: int, height: int, angle: int, upto: int)
    requires
        0 <= upto <= height,
        forall|rows: int| 1 <= rows <= upto ==> !leaves_frame(center, angle, rows),
    ensures
        ray_len_from(center, height, angle, 0) == upto + ray_len_from(center, height, angle, upto),
    decreases upto,
{
    if upto > 0 {
        lemma_ray_len_split(center, height, angle, upto - 1);
        assert(!leaves_frame(center, angle, upto));
    }
}

/// A ray has no more points than rows are left, and leaves the frame right
/// after its last point unless that is on the top row.
pub proof fn lemma_ray_len_from_bounds(center: int, height: int, angle: int, start: int)
    requires
        0 <= start <= height,
    ensures
        start + ray_len_from(center, height, angle, start) <= height,
        forall|rows: int|
            start < rows <= start + ray_len_from(center, height, angle, start) ==> !leaves_frame(
                center,
                angle,
                rows,
            ),
        start + ray_len_from(center, height, angle, start) < height ==> leaves_frame(
            center,
            angle,
            start + ray_len_from(center, height, angle, start) + 1,
        ),
    decreases height - start,
{
    if start < height && !leaves_frame(center, angle, start + 1) {
        lemma_ray_len_from_bounds(center, height, angle, start + 1);
    }
}

/// A ray has at most one point for each row of the frame, and every point of
/// it is within the half-width of the centre column.
pub proof fn lemma_ray_len_bounds(width: int, height: int, angle: int, center: int)
    requires
        0 <= height,
        center == width / 2,
    ensures
        ray_len(width, height, angle) <= height,
        forall|rows: int|
            1 <= rows <= ray_len(width, height, angle) ==> !leaves_frame(center, angle, rows),
        ray_len(width, height, angle) < height ==> leaves_frame(
            center,
            angle,
            ray_len(width, height, angle) as int + 1,
        ),
{
    lemma_ray_len_from_bounds(center, height, angle, 0);
}

/// A point of the ray is offset from the centre column by no more than the
/// half-width, to the side that the angle points to.
pub proof fn lemma_offset_within(width: int, height: int, angle: int, k: int)
    requires
        0 <= height,
        0 <= width,
        is_steering_angle(angle),
        0 <= k < ray_len(width, height, angle),
    ensures
        angle >= 0 ==> 0 <= ray_offset(angle, k + 1) <= width / 2,
        angle <= 0 ==> -(width / 2) <= ray_offset(angle, k + 1) <= 0,
{
    lemma_ray_len_bounds(width, height, angle, width / 2);
    assert(!leaves_frame(width / 2, angle, k + 1));
    let degrees = if angle >= 0 {
        angle
    } else {
        -angle
    };
    lemma_tangent_bounds(degrees);
    let product = (k + 1) * slope(angle);
    assert(0 <= product) by (nonlinear_arith)
        requires
            product == (k + 1) * slope(angle),
            0 <= k,
            0 <= slope(angle),
    ;
    let center = width / 2;
    assert(product <= center * TANGENT_ONE);
    assert(0 <= product / (TANGENT_ONE as int) <= center);
    if angle == 0 {
        assert(product == 0) by (nonlinear_arith)
            requires
                product == (k + 1) * slope(angle),
                slope(angle) == 0,
        ;
    }
}

/// Every point of a ray lies on a row of its own, further up than the points
/// before it: the points have strictly descending indices. In a frame at
/// least one pixel wide this holds for every steering angle.
pub proof fn lemma_ray_descends(width: int, height: int, angle: int, i: int, j: int)
    requires
        1 <= width,
        0 <= height,
        is_steering_angle(angle),
        0 <= i < j < ray_len(width, height, angle),
    ensures
        ray_point(width, height, angle, j) < ray_point(width, height, angle, i),
{
    lemma_offset_within(width, height, angle, i);
    lemma_offset_within(width, height, angle, j);
    assert((height - 1 - j) * width <= (height - 1 - i) * width - width) by (nonlinear_arith)
        requires
            i < j,
            1 <= width,
    ;
}

/// The indices of a ray descend from each point to the next, in a frame at
/// least one pixel wide.
pub proof fn lemma_ray_descends_throughout(width: int, height: int, angle: int)
    requires
        1 <= width,
        0 <= height,
        is_steering_angle(angle),
    ensures
        forall|i: int, j: int|
            0 <= i < j < ray_len(width, height, angle) ==> #[trigger] ray_point(
                width,
                height,
                angle,
                j,
            ) < #[trigger] ray_point(width, height, angle, i),
{
    assert forall|i: int, j: int| 0 <= i < j < ray_len(width, height, angle) implies #[trigger]
        ray_point(width, height, angle, j) < #[trigger] ray_point(width, height, angle, i) by {
        lemma_ray_descends(width, height, angle, i, j);
    }
}

/// Point number `k` of a ray belongs to row `height - 1 - k`: its index is
/// at most the index at which that row begins and at least the index at
/// which the row above it begins.
pub proof fn lemma_ray_point_on_row(width: int, height: int, angle: int, k: int)
    requires
        0 <= width,
        0 <= height,
        is_steering_angle(angle),
        0 <= k < ray_len(width, height, angle),
    ensures
        (height - 2 - k) * width <= ray_point(width, height, angle, k) <= (height - 1 - k) * width,
{
    lemma_offset_within(width, height, angle, k);
    assert((height - 2 - k) * width == (height - 1 - k) * width - width) by (nonlinear_arith);
}

/// Cast straight ahead, the ray is a vertical line: it has one point on
/// every row of the frame, each with no offset from the centre column.
pub proof fn lemma_straight_ray(width: int, height: int)
    requires
        0 <= width,
        0 <= height,
    ensures
        ray_len(width, height, 0) == height,
        forall|k: int|
            0 <= k < height ==> #[trigger] ray_point(width, height, 0, k) == (height - 1 - k)
                * width - width / 2,
{
    lemma_tangent_bounds(0);
    let center = width / 2;
    assert forall|rows: int| 1 <= rows <= height implies !leaves_frame(center, 0, rows) by {
        assert(rows * slope(0) == 0) by (nonlinear_arith)
            requires
                slope(0) == 0,
        ;
    }
    lemma_ray_len_split(center, height, 0, height);
    assert forall|k: int| 0 <= k < height implies #[trigger] ray_point(width, height, 0, k) == (
    height - 1 - k) * width - width / 2 by {
        assert((k + 1) * slope(0) == 0) by (nonlinear_arith)
            requires
                slope(0) == 0,
        ;
    }
}

/// Cast at 90 degrees to either side, the ray has no points.
pub proof fn lemma_right_angle_empty(width: int, height: int, angle: int)
    requires
        valid_size(width, height),
        angle == 90 || angle == -90,
    ensures
        ray_len(width, height, angle) == 0,
{
    lemma_tangent_bounds(90);
    if height > 0 {
        assert(width <= width * height) by (nonlinear_arith)
            requires
                0 <= width,
                1 <= height,
        ;
        assert(leaves_frame(width / 2, angle, 1));
    }
}

/// Casts a ray through the space of a given size, at a given angle from the
/// bottom centre. Returns the indices of all elements on the ray.
///
/// The ray has one point for each row from the bottom up and ends where its
/// offset from the centre column first exceeds half the width.
pub fn cast_ray(width: &i32, height: &i32, angle: &Angle) -> (indices: Vec<i32>)
    requires
        valid_size(*width as int, *height as int),
        is_steering_angle(*angle as int),
    ensures
        indices.len() == ray_len(*width as int, *height as int, *angle as int),
        indices.len() <= *height,
        forall|k: int|
            0 <= k < indices.len() ==> indices[k] as int == ray_point(
                *width as int,
                *height as int,
                *angle as int,
                k,
            ),
        *width >= 1 ==> forall|i: int, j: int|
            0 <= i < j < indices.len() ==> indices[j] < indices[i],
        *angle == 0 ==> indices.len() == *height && forall|k: int|
            0 <= k < indices.len() ==> indices[k] == (*height - 1 - k) * *width - *width / 2,
        *angle == 90 || *angle == -90 ==> indices.len() == 0,
{
    let w: i32 = *width;
    let h: i32 = *height;
    let a: i64 = *angle;
    let degrees: u8 = if a >= 0 {
        a as u8
    } else {
        (-a) as u8
    };
    let tangent: u128 = tangent_of(degrees);
    let center: i32 = w / 2;
    let limit: u128 = center as u128 * TANGENT_ONE;
    let mut indices: Vec<i32> = Vec::new();
    proof {
        lemma_tangent_bounds(degrees as int);
        assert(tangent == slope(a as int));
        if w >= 1 {
            lemma_ray_descends_throughout(w as int, h as int, a as int);
        }
        if a == 0 {
            lemma_straight_ray(w as int, h as int);
        }
    }
    if degrees == 90 {
        proof {
            lemma_right_angle_empty(w as int, h as int, a as int);
        }
        return indices;
    }
    let mut row: i32 = h;
    while row > 0
        invariant
            w == *width && h == *height && a == *angle,
            -90 < a < 90,
            valid_size(w as int, h as int),
            0 <= row <= h,
            center == w / 2,
            limit == center * TANGENT_ONE,
            tangent == slope(a as int),
            tangent < 0x1_0000_0000_0000_0000,
            indices.len() == h - row,
            forall|rows: int| 1 <= rows <= h - row ==> !leaves_frame(center as int, a as int, rows),
            forall|k: int|
                0 <= k < indices.len() ==> indices[k] as int == ray_point(
                    w as int,
                    h as int,
                    a as int,
                    k,
                ),
            w >= 1 ==> forall|i: int, j: int|
                0 <= i < j < ray_len(w as int, h as int, a as int) ==> #[trigger] ray_point(
                    w as int,
                    h as int,
                    a as int,
                    j,
                ) < #[trigger] ray_point(w as int, h as int, a as int, i),
            a == 0 ==> ray_len(w as int, h as int, 0) == h && forall|k: int|
                0 <= k < h ==> #[trigger] ray_point(w as int, h as int, 0, k) == (h - 1 - k) * w - w
                    / 2,
        decreases row,
    {
        row = row - 1;
        let rows: i32 = h - row;
        assert(rows * tangent < 0x8000_0000 * 0x1_0000_0000_0000_0000) by (nonlinear_arith)
            requires
                0 < rows < 0x8000_0000,
                0 <= tangent < 0x1_0000_0000_0000_0000,
        ;
        let product: u128 = rows as u128 * tangent;
        if product > limit {
            proof {
                assert(leaves_frame(center as int, a as int, rows as int));
                lemma_ray_len_split(center as int, h as int, a as int, rows - 1);
            }
            return indices;
        }
        let reach: i32 = (product / TANGENT_ONE) as i32;
        let offset: i32 = if a < 0 {
            -reach
        } else {
            reach
        };
        assert(0 <= row * w <= w * h) by (nonlinear_arith)
            requires
                0 <= row < h,
                0 <= w,
        ;
        let index: i32 = row * w - center + offset;
        indices.push(index);
    }
    proof {
        lemma_ray_len_split(center as int, h as int, a as int, h as int);
    }
    indices
}

} // verus!
