//! A plain line follower on two masks: it turns away from whichever line a
//! ray meets first, in steps of two and a half degrees, until a ray is clear
//! or an angle comes up again.
//!
//! Angles in this module count tenths of a degree.

use crate::geometry::{img_index_to_coord, trunc_div};
use crate::mask::{pixel_at, Mask};
use std::collections::HashSet;
use vstd::prelude::*;

verus! {

broadcast use vstd::std_specs::hash::group_hash_axioms;

/// Which way to turn.
#[derive(Clone, Copy, Debug, PartialEq, Eq, Structural)]
pub enum Direction {
    Left,
    Right,
    Straight,
}

/// What the follower does after one ray.
#[derive(Clone, Copy, Debug, PartialEq, Eq, Structural)]
pub enum AngleChoice {
    /// The angle to drive at, in tenths of a degree.
    Chosen(i32),
    /// The angle to cast the next ray at, in tenths of a degree.
    Next(i32),
}

/// Two and a half degrees, in tenths of a degree.
pub const TURN_STEP: i32 = 25;

/// Ninety degrees, in tenths of a degree.
pub const TURN_LIMIT: i32 = 900;

/// The pixel value that marks a line.
pub const LINE: u8 = 255;

/// The whole degrees of an angle given in tenths, rounded toward zero.
pub open spec fn whole_degrees(angle: int) -> int {
    trunc_div(angle, 10)
}

/// Rows between the bottom edge of a grid `rows` rows high and the row of
/// the pixel at `point`.
pub open spec fn rows_up(cols: int, rows: int, point: int) -> int {
    let row = trunc_div(point, cols);
    if rows >= row {
        rows - row
    } else {
        row - rows
    }
}

/// Which way the pixel at `point` sends the follower: right where the left
/// mask has a line there, else left where the right mask has one.
pub open spec fn turn_at(left: Seq<u8>, right: Seq<u8>, point: int) -> Option<Direction> {
    if pixel_at(left, point) == Some(LINE) {
        Some(Direction::Right)
    } else if pixel_at(right, point) == Some(LINE) {
        Some(Direction::Left)
    } else {
        None
    }
}

/// Which way the points of a ray send the follower, from position `from`
/// on: the first point on a line decides, unless a point more than
/// `max_dist` rows up comes first or the ray ends; then the way is straight.
pub open spec fn turn_along(
    left: Seq<u8>,
    right: Seq<u8>,
    cols: int,
    rows: int,
    ray: Seq<i32>,
    max_dist: int,
    from: int,
) -> Direction
    decreases ray.len() - from,
{
    if from < 0 || from >= ray.len() || rows_up(cols, rows, ray[from] as int) > max_dist {
        Direction::Straight
    } else {
        match turn_at(left, right, ray[from] as int) {
            Some(direction) => direction,
            None => turn_along(left, right, cols, rows, ray, max_dist, from + 1),
        }
    }
}

/// Says which way to turn from what the points of a ray meet in the masks of
/// the left and the right line; the ray is given from its nearest point to
/// its farthest.
pub fn direction_from_ray(left: &Mask, right: &Mask, ray: &Vec<i32>, max_dist: u32) -> (direction:
    Direction)
    requires
        left.spec_cols() == right.spec_cols(),
        left.spec_rows() == right.spec_rows(),
        left.spec_cols() > 0,
    ensures
        direction == turn_along(
            left@,
            right@,
            left.spec_cols(),
            left.spec_rows(),
            ray@,
            max_dist as int,
            0,
        ),
{
    let cols: i32 = left.cols();
    let rows: i32 = left.rows();
    let mut i: usize = 0;
    while i < ray.len()
        invariant
            i <= ray.len(),
            cols == left.spec_cols(),
            rows == left.spec_rows(),
            cols > 0,
            0 <= rows,
            turn_along(left@, right@, cols as int, rows as int, ray@, max_dist as int, 0)
                == turn_along(
                left@,
                right@,
                cols as int,
                rows as int,
                ray@,
                max_dist as int,
                i as int,
            ),
        decreases ray.len() - i,
    {
        let point: i32 = ray[i];
        let row: i64 = img_index_to_coord(&cols, &point).1 as i64;
        let dist: i64 = if rows as i64 >= row {
            rows as i64 - row
        } else {
            row - rows as i64
        };
        if dist > max_dist as i64 {
            return Direction::Straight;
        }
        if left.at(point as i64) == Some(LINE) {
            return Direction::Right;
        } else if right.at(point as i64) == Some(LINE) {
            return Direction::Left;
        }
        i = i + 1;
    }
    Direction::Straight
}

/// What the follower does after the ray at `angle` sent it in `direction`,
/// and the whole degrees that it has then tried.
///
/// A clear ray chooses its angle. Otherwise the follower turns by two and a
/// half degrees, unless it is at the limit, which it then chooses. An angle
/// whose whole degrees were tried before is chosen; any other is tried next.
pub open spec fn choice_after(angle: int, seen: Set<i32>, direction: Direction) -> (
    AngleChoice,
    Set<i32>,
) {
    let turned = match direction {
        Direction::Left => angle - TURN_STEP,
        _ => angle + TURN_STEP,
    };
    if direction == Direction::Straight {
        (AngleChoice::Chosen(angle as i32), seen)
    } else if direction == Direction::Left && angle <= -TURN_LIMIT {
        (AngleChoice::Chosen((-TURN_LIMIT) as i32), seen)
    } else if direction == Direction::Right && angle >= TURN_LIMIT {
        (AngleChoice::Chosen(TURN_LIMIT), seen)
    } else if seen.contains(whole_degrees(turned) as i32) {
        (AngleChoice::Chosen(turned as i32), seen)
    } else {
        (AngleChoice::Next(turned as i32), seen.insert(whole_degrees(turned) as i32))
    }
}

/// Takes the follower one ray further: chooses the angle to drive at, or the
/// angle to try next, and notes the whole degrees of that angle as tried.
pub fn choose_angle(angle: i32, seen: &mut HashSet<i32>, direction: Direction) -> (choice:
    AngleChoice)
    requires
        -TURN_LIMIT - TURN_STEP <= angle <= TURN_LIMIT + TURN_STEP,
    ensures
        (choice, final(seen)@) == choice_after(angle as int, old(seen)@, direction),
        choice matches AngleChoice::Next(next) ==> -TURN_LIMIT - TURN_STEP <= next <= TURN_LIMIT
            + TURN_STEP,
{
    let turned: i32 = match direction {
        Direction::Straight => {
            return AngleChoice::Chosen(angle);
        },
        Direction::Left => {
            if angle <= -TURN_LIMIT {
                return AngleChoice::Chosen(-TURN_LIMIT);
            }
            angle - TURN_STEP
        },
        Direction::Right => {
            if angle >= TURN_LIMIT {
                return AngleChoice::Chosen(TURN_LIMIT);
            }
            angle + TURN_STEP
        },
    };
    let whole: i32 = turned / 10;
    if seen.contains(&whole) {
        AngleChoice::Chosen(turned)
    } else {
        seen.insert(whole);
        AngleChoice::Next(turned)
    }
}

/// The positions among the first `upto` pixels of a row that hold a line,
/// in ascending order.
pub open spec fn line_cols_upto(pixels: Seq<u8>, upto: int) -> Seq<i32>
    decreases upto,
{
    if upto <= 0 {
        Seq::empty()
    } else if pixels[upto - 1] == LINE {
        line_cols_upto(pixels, upto - 1).push((upto - 1) as i32)
    } else {
        line_cols_upto(pixels, upto - 1)
    }
}

/// The columns of a row of a mask that hold a line, from left to right.
pub fn row_line_cols(row: &Mask) -> (cols: Vec<i32>)
    ensures
        cols@ == line_cols_upto(row@, row@.len() as int),
{
    let width: i32 = row.cols();
    let height: i32 = row.rows();
    assert(0 <= width * height <= i32::MAX);
    let total: i32 = width * height;
    let mut cols: Vec<i32> = Vec::new();
    let mut col: i32 = 0;
    while col < total
        invariant
            0 <= col <= total,
            total == row@.len(),
            cols@ == line_cols_upto(row@, col as int),
        decreases total - col,
    {
        if row.at(col as i64) == Some(LINE) {
            cols.push(col);
        }
        col = col + 1;
    }
    cols
}

/// Number of angles among the first `upto` of `buf` whose whole degrees are
/// `whole`.
pub open spec fn votes_in(buf: Seq<i32>, whole: int, upto: int) -> nat
    decreases upto,
{
    if upto <= 0 {
        0
    } else {
        votes_in(buf, whole, upto - 1) + if whole_degrees(buf[upto - 1] as int) == whole {
            1nat
        } else {
            0nat
        }
    }
}

/// Number of angles of `buf` whose whole degrees are `whole`.
pub open spec fn votes(buf: Seq<i32>, whole: int) -> nat {
    votes_in(buf, whole, buf.len() as int)
}

/// Whole degrees that no angle has get no vote.
proof fn lemma_no_angle_no_votes(buf: Seq<i32>, whole: int, upto: int)
    requires
        0 <= upto <= buf.len(),
        forall|i: int| 0 <= i < upto ==> whole_degrees(#[trigger] buf[i] as int) != whole,
    ensures
        votes_in(buf, whole, upto) == 0,
    decreases upto,
{
    if upto > 0 {
        lemma_no_angle_no_votes(buf, whole, upto - 1);
    }
}

/// Counts the votes for the whole degrees of `whole`.
fn count_votes(buf: &Vec<i32>, whole: i32) -> (count: usize)
    ensures
        count == votes(buf@, whole as int),
{
    let mut count: usize = 0;
    let mut i: usize = 0;
    while i < buf.len()
        invariant
            i <= buf.len(),
            count == votes_in(buf@, whole as int, i as int),
            count <= i,
        decreases buf.len() - i,
    {
        if buf[i] / 10 == whole {
            count = count + 1;
        }
        i = i + 1;
    }
    count
}

/// Counts the angles in the buffer by their whole degrees and selects the
/// most common, in tenths of a degree: zero for an empty buffer, else whole
/// degrees of some angle in the buffer that no others outnumber.
pub fn tally_angles(buf: &Vec<i32>) -> (angle: i32)
    ensures
        buf.len() == 0 ==> angle == 0,
        buf.len() > 0 ==> exists|i: int|
            0 <= i < buf.len() && angle == 10 * whole_degrees(#[trigger] buf[i] as int),
        forall|whole: int| #[trigger] votes(buf@, whole) <= votes(buf@, whole_degrees(angle as int)),
{
    let mut max_votes: usize = 0;
    let mut max_angle: i32 = 0;
    let mut i: usize = 0;
    while i < buf.len()
        invariant
            i <= buf.len(),
            i == 0 ==> max_angle == 0 && max_votes == 0,
            i > 0 ==> exists|j: int|
                0 <= j < i && max_angle == whole_degrees(#[trigger] buf[j] as int),
            i > 0 ==> max_votes == votes(buf@, max_angle as int),
            forall|j: int|
                0 <= j < i ==> votes(buf@, whole_degrees(#[trigger] buf[j] as int)) <= max_votes,
        decreases buf.len() - i,
    {
        let whole: i32 = buf[i] / 10;
        let count: usize = count_votes(buf, whole);
        if i == 0 || count > max_votes {
            max_votes = count;
            max_angle = whole;
        }
        i = i + 1;
    }
    proof {
        assert(whole_degrees(10 * max_angle) == max_angle);
        assert forall|whole: int| #[trigger] votes(buf@, whole) <= votes(buf@, max_angle as int) by {
            if forall|j: int|
                0 <= j < buf.len() ==> whole_degrees(#[trigger] buf[j] as int) != whole {
                lemma_no_angle_no_votes(buf@, whole, buf.len() as int);
            }
        }
    }
    max_angle * 10
}

} // verus!
