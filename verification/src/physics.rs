//! The discrete part of the ball's step: which cells the ball's edges reach
//! at the position it is about to take, and on which axes it turns back.
//!
//! A position is given by the whole pixels around it: for each axis the
//! greatest whole pixel that is not above the coordinate and the least that
//! is not below it.

use crate::course::{occupant, GolfMap};
use crate::grid::{cell_of_pixel, pixel_to_cell, Point};
use crate::object::GameObject;
use vstd::prelude::*;

verus! {

/// Distance from the ball's centre to the points at which it is probed.
pub const BALL_HALF_SIZE: i32 = 8;

/// Width and height of the course, in pixels.
pub const COURSE_SIZE: i32 = 400;

/// The least coordinate at which the ball does not turn back.
pub const LOW_EDGE: i32 = 4;

/// The greatest coordinate at which the ball does not turn back.
pub const HIGH_EDGE: i32 = COURSE_SIZE - 6;

/// Number of positions shown of a shot before it is made.
pub const PREVIEW_FRAMES: usize = 14;

/// Number of steps between two shown positions.
pub const PREVIEW_STEPS: usize = 3;

/// The whole pixels around a position.
#[derive(Clone, Copy, Debug, PartialEq, Eq, Structural)]
pub struct Landing {
    pub x_floor: i32,
    pub x_ceil: i32,
    pub y_floor: i32,
    pub y_ceil: i32,
}

/// The signs of the velocity: `leftward` where its x is negative, `upward`
/// where its y is negative.
#[derive(Clone, Copy, Debug, PartialEq, Eq, Structural)]
pub struct Heading {
    pub leftward: bool,
    pub upward: bool,
}

/// The cells under the four edges of the ball.
#[derive(Clone, Copy, Debug, PartialEq, Eq, Structural)]
pub struct Probes {
    pub top: Point,
    pub bottom: Point,
    pub left: Point,
    pub right: Point,
}

/// The axes on which the velocity changes its sign.
#[derive(Clone, Copy, Debug, PartialEq, Eq, Structural)]
pub struct Bounce {
    pub flip_x: bool,
    pub flip_y: bool,
}

/// The cell that holds the pixel `(x, y)`.
pub open spec fn cell_at(x: int, y: int) -> Point {
    Point { x: cell_of_pixel(x) as i32, y: cell_of_pixel(y) as i32 }
}

/// The cells under the points half a ball above, below, left and right of
/// the position with the floors `x` and `y`.
pub open spec fn probes_at(x: int, y: int) -> Probes {
    Probes {
        top: cell_at(x, y - BALL_HALF_SIZE),
        bottom: cell_at(x, y + BALL_HALF_SIZE),
        left: cell_at(x - BALL_HALF_SIZE, y),
        right: cell_at(x + BALL_HALF_SIZE, y),
    }
}

/// Whether a coordinate lies off the playable stretch between the two
/// edges: below the low edge or above the high one.
pub open spec fn off_course(floor: int, ceil: int) -> bool {
    floor < LOW_EDGE || ceil > HIGH_EDGE
}

/// Whether the occupant of `cell` is a wall.
pub open spec fn wall_at(objects: Seq<GameObject>, cell: Point) -> bool {
    match occupant(objects, cell) {
        Some(obj) => obj is Wall,
        None => false,
    }
}

/// The turns of a ball that is about to land on `landing`. On each axis the
/// edge that leads is probed, and a wall under it turns the ball back; a
/// landing off the course turns it once more.
pub open spec fn bounce_of(
    objects: Seq<GameObject>,
    landing: Landing,
    heading: Heading,
) -> Bounce {
    let probes = probes_at(landing.x_floor as int, landing.y_floor as int);
    let ahead_x = if heading.leftward {
        probes.left
    } else {
        probes.right
    };
    let ahead_y = if heading.upward {
        probes.top
    } else {
        probes.bottom
    };
    Bounce {
        flip_x: wall_at(objects, ahead_x) != off_course(
            landing.x_floor as int,
            landing.x_ceil as int,
        ),
        flip_y: wall_at(objects, ahead_y) != off_course(
            landing.y_floor as int,
            landing.y_ceil as int,
        ),
    }
}

/// The cell coordinate of the pixel `px + offset`, for an offset within the
/// ball.
fn shifted_cell(px: i32, offset: i32) -> (c: i32)
    requires
        -8 <= offset <= 8,
    ensures
        c == cell_of_pixel(px + offset),
{
    pixel_to_cell(px as i64 + offset as i64) as i32
}

/// The cells under the four edges of a ball whose position has the floors
/// `x` and `y`.
pub fn probes(x: i32, y: i32) -> (p: Probes)
    ensures
        p == probes_at(x as int, y as int),
{
    let cx = shifted_cell(x, 0);
    let cy = shifted_cell(y, 0);
    Probes {
        top: Point { x: cx, y: shifted_cell(y, -BALL_HALF_SIZE) },
        bottom: Point { x: cx, y: shifted_cell(y, BALL_HALF_SIZE) },
        left: Point { x: shifted_cell(x, -BALL_HALF_SIZE), y: cy },
        right: Point { x: shifted_cell(x, BALL_HALF_SIZE), y: cy },
    }
}

/// Whether a coordinate with the given floor and ceiling lies off the
/// playable stretch.
pub fn is_off_course(floor: i32, ceil: i32) -> (b: bool)
    ensures
        b == off_course(floor as int, ceil as int),
{
    floor < LOW_EDGE || ceil > HIGH_EDGE
}

/// Whether a wall occupies `cell`.
pub fn hits_wall(map: &GolfMap, cell: &Point) -> (b: bool)
    requires
        map.wf(),
    ensures
        b == wall_at(map@, *cell),
{
    match map.get_point(cell) {
        Some(obj) => obj.is_wall(),
        None => false,
    }
}

/// Decides on which axes the ball turns back when it is about to land on
/// `landing` while moving as `heading` says.
pub fn bounce(map: &GolfMap, landing: Landing, heading: Heading) -> (b: Bounce)
    requires
        map.wf(),
    ensures
        b == bounce_of(map@, landing, heading),
{
    let around = probes(landing.x_floor, landing.y_floor);
    let mut flip_x = false;
    let mut flip_y = false;
    if heading.upward {
        if hits_wall(map, &around.top) {
            flip_y = !flip_y;
        }
    } else {
        if hits_wall(map, &around.bottom) {
            flip_y = !flip_y;
        }
    }
    if heading.leftward {
        if hits_wall(map, &around.left) {
            flip_x = !flip_x;
        }
    } else {
        if hits_wall(map, &around.right) {
            flip_x = !flip_x;
        }
    }
    if is_off_course(landing.x_floor, landing.x_ceil) {
        flip_x = !flip_x;
    }
    if is_off_course(landing.y_floor, landing.y_ceil) {
        flip_y = !flip_y;
    }
    Bounce { flip_x, flip_y }
}

} // verus!
