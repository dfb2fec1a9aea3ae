//! The proximity classifier: what a ray strikes first, and how far away.

use crate::geometry::{img_index_to_coord, index_coord, point_dist, whole_dist};
use crate::mask::{pixel_at, Frame, FrameView, Mask};
use crate::ray::{
    cast_ray, lemma_ray_len_bounds, lemma_right_angle_empty, lemma_straight_ray, ray_offset,
    ray_points,
};
use crate::tangent::tangent_magnitude;
use crate::tangent::{is_steering_angle, Angle};
use vstd::prelude::*;

verus! {

/// What a ray struck, with the distance in whole pixels from the reference
/// point to the point of the ray at which it struck.
#[derive(Clone, Copy, Debug, PartialEq, Eq, Structural)]
pub enum TrackObject {
    LeftLine(u32),
    RightLine(u32),
    Obstacle(u32),
    FinishLine(u32),
}

impl TrackObject {
    /// The distance at which the object was struck.
    pub open spec fn spec_dist(&self) -> u32 {
        match self {
            TrackObject::LeftLine(dist) => *dist,
            TrackObject::RightLine(dist) => *dist,
            TrackObject::Obstacle(dist) => *dist,
            TrackObject::FinishLine(dist) => *dist,
        }
    }

    /// The distance at which the object was struck.
    pub fn dist(&self) -> (dist: u32)
        ensures
            dist == self.spec_dist(),
    {
        match self {
            Self::LeftLine(dist) | Self::RightLine(dist) | Self::Obstacle(dist) | Self::FinishLine(
                dist,
            ) => *dist,
        }
    }
}

/// Number of indices in one row of a neighbourhood that reaches `dist`
/// pixels to each side; none when `dist` is negative.
pub open spec fn span_len(dist: int) -> nat {
    if dist >= 0 {
        (2 * dist + 1) as nat
    } else {
        0
    }
}

/// The indices from `mid - dist` to `mid + dist`, in ascending order.
pub open spec fn row_span(mid: int, dist: int) -> Seq<int> {
    Seq::new(span_len(dist), |k: int| mid - dist + k)
}

/// The neighbourhood's own row, then for each ring from 1 to `upto` the row
/// that many rows above and the row that many rows below.
pub open spec fn ring_rows(cols: int, center: int, dist: int, upto: int) -> Seq<int>
    decreases upto,
{
    if upto <= 0 {
        row_span(center, dist)
    } else {
        ring_rows(cols, center, dist, upto - 1) + row_span(center - cols * upto, dist) + row_span(
            center + cols * upto,
            dist,
        )
    }
}

/// All linear indices around `center` that are at most `dist` rows and at
/// most `dist` columns away, in a grid `cols` pixels wide. Nothing keeps an
/// index inside the grid or on the row it started from.
pub open spec fn surrounding(cols: int, center: int, dist: int) -> Seq<int> {
    ring_rows(cols, center, dist, dist)
}

/// Whether every one of `points` that lies inside the grid holds `target`.
pub open spec fn all_match(pixels: Seq<u8>, points: Seq<int>, target: u8) -> bool {
    forall|i: int|
        0 <= i < points.len() ==> (#[trigger] pixel_at(pixels, points[i]) matches Some(pixel)
            ==> pixel == target)
}

/// Whether a ray point counts as struck in a mask: some pixel of the grid
/// next to it or under it, in the three-by-three neighbourhood, is not
/// background.
pub open spec fn struck(pixels: Seq<u8>, cols: int, point: int) -> bool {
    !all_match(pixels, surrounding(cols, point, 1), 0)
}

/// Whether the grid has a pixel at `index` that is not background.
pub open spec fn foreground_at(pixels: Seq<u8>, index: int) -> bool {
    pixel_at(pixels, index) matches Some(pixel) && pixel != 0
}

/// A ray point is struck in a mask exactly when the mask has foreground at
/// the point itself or at one of the eight indices around it: at most one
/// row up or down and at most one column left or right.
pub proof fn lemma_struck_by_neighbour(pixels: Seq<u8>, cols: int, point: int)
    ensures
        struck(pixels, cols, point) <==> exists|up: int, right: int|
            -1 <= up <= 1 && -1 <= right <= 1 && #[trigger] foreground_at(
                pixels,
                point + up * cols + right,
            ),
{
    let around = surrounding(cols, point, 1);
    reveal_with_fuel(ring_rows, 2);
    assert(around =~= seq![
        point - 1,
        point,
        point + 1,
        point - cols - 1,
        point - cols,
        point - cols + 1,
        point + cols - 1,
        point + cols,
        point + cols + 1,
    ]) by {
        assert(cols * 1 == cols);
    }
    if struck(pixels, cols, point) {
        let i = choose|i: int|
            0 <= i < around.len() && !(#[trigger] pixel_at(pixels, around[i]) matches Some(pixel)
                ==> pixel == 0);
        let up: int = if i < 3 {
            0
        } else if i < 6 {
            -1
        } else {
            1
        };
        let right = i % 3 - 1;
        assert(up * cols == if up == 0 {
            0
        } else if up == 1 {
            cols
        } else {
            -cols
        }) by (nonlinear_arith)
            requires
                -1 <= up <= 1,
        ;
        assert(around[i] == point + up * cols + right);
        assert(foreground_at(pixels, point + up * cols + right));
    }
    if exists|up: int, right: int|
        -1 <= up <= 1 && -1 <= right <= 1 && #[trigger] foreground_at(
            pixels,
            point + up * cols + right,
        ) {
        let (up, right) = choose|up: int, right: int|
            -1 <= up <= 1 && -1 <= right <= 1 && #[trigger] foreground_at(
                pixels,
                point + up * cols + right,
            );
        let block: int = if up == 0 {
            0
        } else if up == -1 {
            1
        } else {
            2
        };
        let i = 3 * block + right + 1;
        assert(up * cols == if up == 0 {
            0
        } else if up == 1 {
            cols
        } else {
            -cols
        }) by (nonlinear_arith)
            requires
                -1 <= up <= 1,
        ;
        assert(around[i] == point + up * cols + right);
        assert(pixel_at(pixels, around[i]) is Some);
    }
}

/// The values of a sequence of 64-bit indices.
pub open spec fn as_ints(points: Seq<i64>) -> Seq<int> {
    points.map_values(|p: i64| p as int)
}

/// Appends the indices from `mid - dist` to `mid + dist` to `points`.
fn push_span(points: &mut Vec<i64>, mid: i64, dist: i32)
    requires
        -0x6000_0000_0000_0000 <= mid <= 0x6000_0000_0000_0000,
    ensures
        as_ints(final(points)@) == as_ints(old(points)@) + row_span(mid as int, dist as int),
{
    if dist < 0 {
        assert(as_ints(points@) =~= as_ints(points@) + row_span(mid as int, dist as int));
        return ;
    }
    let first: i64 = mid - dist as i64;
    let count: i64 = 2 * (dist as i64) + 1;
    let mut k: i64 = 0;
    while k < count
        invariant
            0 <= k <= count,
            0 <= dist,
            count == 2 * dist + 1,
            first == mid - dist,
            -0x6000_0000_0000_0000 <= mid <= 0x6000_0000_0000_0000,
            as_ints(points@) == as_ints(old(points)@) + row_span(mid as int, dist as int).take(
                k as int,
            ),
        decreases count - k,
    {
        let ghost before = points@;
        points.push(first + k);
        proof {
            let span = row_span(mid as int, dist as int);
            assert(span.take(k + 1) =~= span.take(k as int).push(span[k as int]));
            assert(as_ints(points@) =~= as_ints(before).push((first + k) as int));
            assert(as_ints(points@) =~= as_ints(old(points)@) + span.take(k + 1));
        }
        k = k + 1;
    }
    proof {
        let span = row_span(mid as int, dist as int);
        assert(span.take(count as int) =~= span);
    }
}

/// Returns all points around the center that are, at most, `dist` points
/// away in a grid as wide as `frame`: the centre's row first, then ring by
/// ring the row above and the row below.
#[verifier::loop_isolation(false)]
pub fn surrounding_points(frame: &Mask, center: &i32, dist: i32) -> (points: Vec<i64>)
    ensures
        as_ints(points@) == surrounding(frame.spec_cols(), *center as int, dist as int),
{
    let cols: i64 = frame.cols() as i64;
    let mid: i64 = *center as i64;
    let mut points: Vec<i64> = Vec::new();
    push_span(&mut points, mid, dist);
    assert(as_ints(points@) =~= ring_rows(cols as int, mid as int, dist as int, 0));
    let mut ring: i64 = 0;
    while ring < dist as i64
        invariant
            0 <= ring,
            ring <= dist || (dist < 0 && ring == 0),
            0 <= cols <= i32::MAX,
            mid == *center,
            as_ints(points@) == ring_rows(cols as int, mid as int, dist as int, ring as int),
        decreases dist - ring,
    {
        ring = ring + 1;
        assert(0 <= cols * ring <= 0x8000_0000 * 0x8000_0000) by (nonlinear_arith)
            requires
                0 <= cols <= 0x8000_0000,
                0 <= ring <= 0x8000_0000,
        ;
        let vertical_dist: i64 = cols * ring;
        let top_row: i64 = mid - vertical_dist;
        let bot_row: i64 = mid + vertical_dist;
        push_span(&mut points, top_row, dist);
        push_span(&mut points, bot_row, dist);
    }
    proof {
        if dist < 0 {
            assert(ring_rows(cols as int, mid as int, dist as int, dist as int) == row_span(
                mid as int,
                dist as int,
            ));
            assert(ring_rows(cols as int, mid as int, dist as int, 0) == row_span(
                mid as int,
                dist as int,
            ));
        }
    }
    points
}

/// Checks all the points a given distance away. Returns true if all of them
/// that lie inside the mask are the target value.
#[verifier::loop_isolation(false)]
pub fn inspect_point(mask: &Mask, center: &i32, dist: i32, target: u8) -> (all: bool)
    ensures
        all == all_match(mask@, surrounding(mask.spec_cols(), *center as int, dist as int), target),
{
    let points: Vec<i64> = surrounding_points(mask, center, dist);
    let ghost around = surrounding(mask.spec_cols(), *center as int, dist as int);
    let mut i: usize = 0;
    while i < points.len()
        invariant
            i <= points.len(),
            as_ints(points@) == around,
            forall|j: int|
                0 <= j < i ==> (#[trigger] pixel_at(mask@, around[j]) matches Some(pixel) ==> pixel
                    == target),
        decreases points.len() - i,
    {
        assert(as_ints(points@)[i as int] == points[i as int]);
        match mask.at(points[i]) {
            Some(pixel) => {
                if pixel != target {
                    assert(pixel_at(mask@, around[i as int]) == Some(pixel));
                    return false;
                }
            },
            None => {},
        }
        i = i + 1;
    }
    true
}

/// Distance recorded for a strike at `point`: from the reference point to
/// the point's column and row, in whole pixels, and no more than a `u32`
/// holds.
pub open spec fn strike_dist(frame: FrameView, point: int) -> u32 {
    let dist = whole_dist(frame.reference_point(), index_coord(frame.width, point));
    if dist > u32::MAX {
        u32::MAX
    } else {
        dist as u32
    }
}

/// What a ray strikes at one of its points: the masks are asked in the order
/// left line, right line, obstacle, finish line, and the first that is struck
/// there decides.
pub open spec fn strike_at(frame: FrameView, point: int) -> Option<TrackObject> {
    if struck(frame.left, frame.width, point) {
        Some(TrackObject::LeftLine(strike_dist(frame, point)))
    } else if struck(frame.right, frame.width, point) {
        Some(TrackObject::RightLine(strike_dist(frame, point)))
    } else if struck(frame.obstacles, frame.width, point) {
        Some(TrackObject::Obstacle(strike_dist(frame, point)))
    } else if struck(frame.finish, frame.width, point) {
        Some(TrackObject::FinishLine(strike_dist(frame, point)))
    } else {
        None
    }
}

/// The strike at the first of `points`, from position `from` on, at which
/// anything is struck.
pub open spec fn first_strike(frame: FrameView, points: Seq<int>, from: int) -> Option<TrackObject>
    decreases points.len() - from,
{
    if from < 0 || from >= points.len() {
        None
    } else {
        match strike_at(frame, points[from]) {
            Some(object) => Some(object),
            None => first_strike(frame, points, from + 1),
        }
    }
}

/// What the ray cast at `angle` strikes first on its way up the frame, if
/// anything.
pub open spec fn ray_hit(frame: FrameView, angle: int) -> Option<TrackObject> {
    first_strike(frame, ray_points(frame.width, frame.height, angle), 0)
}

/// In a mask without foreground no point is struck.
pub proof fn lemma_blank_mask_not_struck(pixels: Seq<u8>, cols: int, point: int)
    requires
        forall|i: int| 0 <= i < pixels.len() ==> pixels[i] == 0,
    ensures
        !struck(pixels, cols, point),
{
}

/// On a frame without foreground no point of any sequence is struck.
pub proof fn lemma_blank_frame_no_strike(frame: FrameView, points: Seq<int>, from: int)
    requires
        frame.is_blank(),
    ensures
        first_strike(frame, points, from) is None,
    decreases points.len() - from,
{
    if 0 <= from < points.len() {
        lemma_blank_mask_not_struck(frame.left, frame.width, points[from]);
        lemma_blank_mask_not_struck(frame.right, frame.width, points[from]);
        lemma_blank_mask_not_struck(frame.obstacles, frame.width, points[from]);
        lemma_blank_mask_not_struck(frame.finish, frame.width, points[from]);
        lemma_blank_frame_no_strike(frame, points, from + 1);
    }
}

/// On a frame whose masks are all background a ray strikes nothing, whatever
/// its angle.
pub proof fn lemma_blank_frame_clear(frame: FrameView, angle: int)
    requires
        frame.is_blank(),
    ensures
        ray_hit(frame, angle) is None,
{
    lemma_blank_frame_no_strike(frame, ray_points(frame.width, frame.height, angle), 0);
}

/// A ray cast at 90 degrees to either side leaves the frame before its first
/// point and strikes nothing.
pub proof fn lemma_right_angle_clear(frame: FrameView, angle: int)
    requires
        frame.wf(),
        angle == 90 || angle == -90,
    ensures
        ray_hit(frame, angle) is None,
{
    lemma_right_angle_empty(frame.width, frame.height, angle);
}

/// Where none of the points from position `from` on is struck, nothing is
/// struck from there on.
pub proof fn lemma_no_strike_is_clear(frame: FrameView, points: Seq<int>, from: int)
    requires
        forall|k: int| from <= k < points.len() && 0 <= k ==> strike_at(frame, #[trigger] points[k]) is None,
    ensures
        first_strike(frame, points, from) is None,
    decreases points.len() - from,
{
    if 0 <= from < points.len() {
        lemma_no_strike_is_clear(frame, points, from + 1);
    }
}

/// Where only the left mask has foreground, whatever is struck is a left
/// line, and a struck point at or after position `from` means a strike.
pub proof fn lemma_left_only_strikes_left(frame: FrameView, points: Seq<int>, from: int, k: int)
    requires
        forall|i: int| 0 <= i < frame.right.len() ==> frame.right[i] == 0,
        forall|i: int| 0 <= i < frame.obstacles.len() ==> frame.obstacles[i] == 0,
        forall|i: int| 0 <= i < frame.finish.len() ==> frame.finish[i] == 0,
        0 <= from <= k < points.len(),
        struck(frame.left, frame.width, points[k]),
    ensures
        first_strike(frame, points, from) is Some,
        first_strike(frame, points, from)->Some_0 is LeftLine,
    decreases k - from,
{
    lemma_blank_mask_not_struck(frame.right, frame.width, points[from]);
    lemma_blank_mask_not_struck(frame.obstacles, frame.width, points[from]);
    lemma_blank_mask_not_struck(frame.finish, frame.width, points[from]);
    if from < k && strike_at(frame, points[from]) is None {
        lemma_left_only_strikes_left(frame, points, from + 1, k);
    }
}

/// Whether a frame 100 pixels wide and high holds nothing but a left line at
/// the top of column 50: the pixel in the top row of that column is
/// foreground, and all foreground lies in the ten rows at the top, within
/// three columns of it.
pub open spec fn line_at_top(frame: FrameView) -> bool {
    &&& frame.wf()
    &&& frame.width == 100
    &&& frame.height == 100
    &&& frame.left[50] != 0
    &&& forall|i: int|
        0 <= i < frame.left.len() && #[trigger] frame.left[i] != 0 ==> i < 1000 && 47 <= i % 100
            <= 53
    &&& forall|i: int| 0 <= i < frame.right.len() ==> frame.right[i] == 0
    &&& forall|i: int| 0 <= i < frame.obstacles.len() ==> frame.obstacles[i] == 0
    &&& forall|i: int| 0 <= i < frame.finish.len() ==> frame.finish[i] == 0
}

/// A left line at the top of column 50 is struck by the ray straight ahead
/// and missed by the ray five degrees to the right.
pub proof fn lemma_line_at_top_struck_ahead(frame: FrameView)
    requires
        line_at_top(frame),
    ensures
        ray_hit(frame, 0) is Some,
        ray_hit(frame, 0)->Some_0 is LeftLine,
        ray_hit(frame, 5) is None,
{
    let ahead = ray_points(100, 100, 0);
    lemma_straight_ray(100, 100);
    assert(ahead[98] == 50);
    assert(struck(frame.left, 100, 50)) by {
        lemma_struck_by_neighbour(frame.left, 100, 50);
        assert(foreground_at(frame.left, 50int + 0int * 100 + 0int));
    }
    lemma_left_only_strikes_left(frame, ahead, 0, 98);

    let aside = ray_points(100, 100, 5);
    lemma_ray_len_bounds(100, 100, 5, 50);
    assert forall|k: int| 0 <= k < aside.len() implies strike_at(frame, #[trigger] aside[k])
        is None by {
        let point = aside[k];
        let offset = ray_offset(5, k + 1);
        assert(tangent_magnitude(5) == 25_216_890_397_087_620) by {
            reveal(tangent_magnitude);
        }
        assert(0 <= offset <= 8);
        assert(k + 1 >= 89 ==> offset >= 7);
        assert(point == (99 - k) * 100 - 50 + offset);
        lemma_blank_mask_not_struck(frame.right, 100, point);
        lemma_blank_mask_not_struck(frame.obstacles, 100, point);
        lemma_blank_mask_not_struck(frame.finish, 100, point);
        lemma_struck_by_neighbour(frame.left, 100, point);
        assert forall|up: int, right: int| -1 <= up <= 1 && -1 <= right <= 1 implies !#[trigger]
        foreground_at(frame.left, point + up * 100 + right) by {
            let index = point + up * 100 + right;
            if 0 <= index < frame.left.len() && frame.left[index] != 0 {
                assert(index == (98 - k + up) * 100 + (50 + offset + right));
                assert(index % 100 == 50 + offset + right);
            }
        }
    }
    lemma_no_strike_is_clear(frame, aside, 0);
}

/// Distance recorded for a strike at `point` of `frame`.
fn strike_distance(frame: &Frame, point: i32) -> (dist: u32)
    requires
        frame@.width > 0,
    ensures
        dist == strike_dist(frame@, point as int),
{
    let origin: (i32, i32) = frame.reference_point();
    let width: i32 = frame.width();
    let coords: (i32, i32) = img_index_to_coord(&width, &point);
    let dist: u64 = point_dist(&origin, &coords);
    if dist > u32::MAX as u64 {
        u32::MAX
    } else {
        dist as u32
    }
}

/// Whether the point is struck in the mask.
fn is_struck(mask: &Mask, point: i32) -> (hit: bool)
    ensures
        hit == struck(mask@, mask.spec_cols(), point as int),
        hit ==> mask@.len() > 0,
{
    let hit: bool = !inspect_point(mask, &point, 1, 0);
    proof {
        if hit {
            let around = surrounding(mask.spec_cols(), point as int, 1);
            let i = choose|i: int|
                0 <= i < around.len() && !(#[trigger] pixel_at(mask@, around[i]) matches Some(pixel)
                    ==> pixel == 0);
            assert(pixel_at(mask@, around[i]) is Some);
        }
    }
    hit
}

/// Casts a ray from the bottom centre at the given angle. Returns the first
/// object that the ray strikes, with its distance, or nothing when the way to
/// the edge of the frame is clear.
#[verifier::loop_isolation(false)]
pub fn ray_dist(frame: &Frame, angle: &Angle) -> (hit: Option<TrackObject>)
    requires
        is_steering_angle(*angle as int),
    ensures
        hit == ray_hit(frame@, *angle as int),
{
    let width: i32 = frame.width();
    let height: i32 = frame.height();
    let ray: Vec<i32> = cast_ray(&width, &height, angle);
    let ghost points = ray_points(width as int, height as int, *angle as int);
    let mut i: usize = 0;
    while i < ray.len()
        invariant
            i <= ray.len(),
            width == frame@.width,
            height == frame@.height,
            frame@.wf(),
            ray.len() == points.len(),
            forall|k: int| 0 <= k < ray.len() ==> ray[k] as int == points[k],
            first_strike(frame@, points, 0) == first_strike(frame@, points, i as int),
        decreases ray.len() - i,
    {
        let point: i32 = ray[i];
        let hit_left: bool = is_struck(frame.left(), point);
        let hit_right: bool = !hit_left && is_struck(frame.right(), point);
        let hit_obstacle: bool = !hit_left && !hit_right && is_struck(frame.obstacles(), point);
        let hit_finish: bool = !hit_left && !hit_right && !hit_obstacle && is_struck(
            frame.finish(),
            point,
        );
        if hit_left || hit_right || hit_obstacle || hit_finish {
            assert(frame@.width > 0) by (nonlinear_arith)
                requires
                    frame@.width >= 0,
                    frame@.width * frame@.height > 0,
            ;
            let dist: u32 = strike_distance(frame, point);
            if hit_left {
                return Some(TrackObject::LeftLine(dist));
            } else if hit_right {
                return Some(TrackObject::RightLine(dist));
            } else if hit_obstacle {
                return Some(TrackObject::Obstacle(dist));
            } else {
                return Some(TrackObject::FinishLine(dist));
            }
        }
        i = i + 1;
    }
    None
}

} // verus!
