use vstd::prelude::*;

verus! {

/// Thousandths of a world unit in one world unit; also milliseconds in one second.
pub const MILLI: i64 = 1000;

/// Half of `MILLI`: thousandths of a unit in half a unit.
pub const HALF_MILLI: i64 = 500;

/// World units per sprite pixel.
pub const PIXEL_RATIO: i64 = 4;

/// Downward acceleration of the bird, in world units per second squared.
pub const GRAVITY: i64 = 2000;

/// Upward velocity that a flap sets, in world units per second.
pub const FLAP_FORCE: i64 = 500;

/// The bird tilts one degree for every 7.5 units per second of velocity, so
/// one fifteenth of a degree for every half unit per second.
pub const ROTATION_STEPS_PER_DEGREE: i64 = 15;

/// Fifteenths of a degree of tilt per unit per second of velocity.
pub const ROTATION_STEPS_PER_VELOCITY: i64 = 2;

/// Largest tilt of the bird, in degrees, either way.
pub const MAX_TILT_DEGREES: i64 = 90;

/// Number of pipe pairs in the field.
pub const OBSTACLE_AMOUNT: usize = 5;

/// Number of pipes in the field: two per pair.
pub const OBSTACLE_COUNT: usize = 10;

/// Pipe sprite width, in pixels.
pub const OBSTACLE_WIDTH: i64 = 32;

/// Pipe sprite height, in pixels.
pub const OBSTACLE_HEIGHT: i64 = 144;

/// Largest random vertical shift of a pair, in pixels, either way.
pub const OBSTACLE_VERTICAL_OFFSET: i64 = 30;

/// Distance, in pixels, from the middle of a gap to the near end of a pipe.
pub const OBSTACLE_GAP_SIZE: i64 = 15;

/// Horizontal distance between pairs when they are recycled, in pixels.
pub const OBSTACLE_SPACING: i64 = 60;

/// Speed at which pipes scroll left, in world units per second.
pub const OBSTACLE_SCROLL_SPEED: i64 = 150;

/// Half of a pipe's width in the world, in thousandths of a unit.
pub const HALF_OBSTACLE_WIDTH: i64 = OBSTACLE_WIDTH * PIXEL_RATIO * HALF_MILLI;

/// Half of a pipe's height in the world, in thousandths of a unit.
pub const HALF_OBSTACLE_HEIGHT: i64 = OBSTACLE_HEIGHT * PIXEL_RATIO * HALF_MILLI;

/// Vertical distance from the middle of a gap to the centre of each of its
/// pipes, in thousandths of a unit.
pub const CENTERED_PIPE_POSITION: i64 = OBSTACLE_HEIGHT * PIXEL_RATIO * HALF_MILLI
    + OBSTACLE_GAP_SIZE * PIXEL_RATIO * MILLI;

/// Distance by which a recycled pipe jumps forward, in thousandths of a unit.
pub const RECYCLE_DISTANCE: i64 = OBSTACLE_AMOUNT as i64 * OBSTACLE_SPACING * PIXEL_RATIO * MILLI;

/// Bound of a random vertical shift before scaling to the world, in
/// thousandths of a pixel.
pub const OFFSET_BOUND: i64 = OBSTACLE_VERTICAL_OFFSET * MILLI;

/// Bound of a vertical shift in the world, in thousandths of a unit.
pub const WORLD_OFFSET_BOUND: i64 = OFFSET_BOUND * PIXEL_RATIO;

/// Where the middle of the pipes starts, in thousandths of a unit:
/// `(OBSTACLE_HEIGHT / 2 + OBSTACLE_GAP_SIZE) * PIXEL_RATIO` world units.
pub fn get_centered_pipe_position() -> (r: i64)
    ensures
        r == CENTERED_PIPE_POSITION,
        r == 348_000,
{
    CENTERED_PIPE_POSITION
}

} // verus!
