//! A small arcade flight simulation: a bird falls under gravity and flaps
//! upward on demand while pairs of pipes scroll toward it and are recycled
//! once they leave the screen.
//!
//! All quantities are integers. Lengths are in thousandths of a world unit,
//! times in milliseconds, the bird's velocity in world units per second and
//! the screen's dimensions in world units.

mod constants;
mod offset;
mod bird;
mod obstacle;
mod game;

pub use constants::{
    get_centered_pipe_position, CENTERED_PIPE_POSITION, FLAP_FORCE, GRAVITY, HALF_MILLI, HALF_OBSTACLE_HEIGHT,
    HALF_OBSTACLE_WIDTH, MAX_TILT_DEGREES, MILLI, OBSTACLE_AMOUNT, OBSTACLE_COUNT,
    OBSTACLE_GAP_SIZE, OBSTACLE_HEIGHT, OBSTACLE_SCROLL_SPEED, OBSTACLE_SPACING,
    OBSTACLE_VERTICAL_OFFSET, OBSTACLE_WIDTH, OFFSET_BOUND, PIXEL_RATIO, RECYCLE_DISTANCE,
    ROTATION_STEPS_PER_DEGREE, ROTATION_STEPS_PER_VELOCITY, WORLD_OFFSET_BOUND,
};
pub use offset::{generate_offset, generate_offsets, offset_from_sample, offset_in_range, offsets_ok, world_offset};
pub use bird::{
    fall, fits_i64, flight_fits, gravity_drop, lemma_fall_closed_form, lemma_flap_sets_velocity,
    lemma_gravity_lowers_velocity, next_height, next_velocity, tilt, Bird,
};
pub use obstacle::{
    dist, field_wf, hits, is_advanced, is_layout, is_off_screen, is_spawned, lemma_layout_shape,
    pair_ok, pipe_direction_of, scroll_fits, scrolled, spawn_obstacle, spawn_obstacles,
    spawn_random_obstacles, spawn_spacing, Obstacle,
};
pub use game::{
    is_bird_step, is_dead, is_field_step, lemma_death_resets, lemma_falling_run,
    lemma_falling_run_closed_form, lemma_recycle, obstacles_fit, survived_fall, total_drop,
    GameManager,
};
